use cubic::error::Error;
use cubic::machine::machine_dao::{MachineDao, MachineState};
use cubic::machine::Machine;
use cubic::platform::{FileSystem, SystemMock};

fn build_machine(name: &str) -> Machine {
    Machine {
        name: name.to_string(),
        user: "cubic".to_string(),
        cpus: 1,
        mem: 1073741824,
        disk_capacity: 2361393152,
        ssh_port: 14357,
        display: false,
        gpu: false,
        mounts: vec![],
        hostfwd: vec![],
    }
}

fn build_dao() -> MachineDao {
    MachineDao::new("/data/machines", "/run/user/1000")
}

#[test]
fn new_keeps_run_time_files_under_the_runtime_dir() {
    let dao = build_dao();
    assert_eq!(dao.machine_dir, "/data/machines");
    assert_eq!(dao.cache_dir, "/run/user/1000/cubic/machines");
    assert_eq!(dao.pid_file("vm"), "/run/user/1000/cubic/machines/vm/qemu.pid");
}

#[test]
fn a_machine_runs_while_its_pid_names_a_process() {
    let dao = build_dao();
    let stopped = SystemMock::new();
    assert!(!dao.is_running(&stopped, &build_machine("vm")));
    let running = SystemMock::new()
        .add_file("/run/user/1000/cubic/machines/vm/qemu.pid", b" 42\n")
        .add_dir("/proc/42");
    assert!(dao.is_running(&running, &build_machine("vm")));
    assert_eq!(dao.get_state(&running, &build_machine("vm"), false), MachineState::Starting);
    assert_eq!(dao.get_state(&running, &build_machine("vm"), true), MachineState::Running);
    assert_eq!(dao.get_state(&stopped, &build_machine("vm"), true), MachineState::Stopped);
    let gone = SystemMock::new().add_file("/run/user/1000/cubic/machines/vm/qemu.pid", b"42");
    assert!(!dao.is_running(&gone, &build_machine("vm")));
}

#[test]
fn read_pid_reads_a_trimmed_number() {
    assert_eq!(MachineDao::read_pid(Ok(" 17\n".to_string())), Some(17));
    assert_eq!(MachineDao::read_pid(Ok("x".to_string())), None);
    assert_eq!(MachineDao::read_pid(Err(Error::QemuNotFound)), None);
}

#[test]
fn rename_refuses_a_taken_name_and_moves_the_directory() {
    let dao = build_dao();
    let mut system = SystemMock::new()
        .add_file("/data/machines/vm/machine.img", b"disk")
        .add_dir("/data/machines/other");
    let mut machine = build_machine("vm");
    assert!(matches!(dao.rename(&mut system, &mut machine, "other"), Err(Error::MachineAlreadyExists(n)) if n == "other"));
    assert_eq!(machine.name, "vm");
    dao.rename(&mut system, &mut machine, "fresh").unwrap();
    assert_eq!(machine.name, "fresh");
    assert!(system.exists_path("/data/machines/fresh/machine.img"));
    assert!(!system.exists_path("/data/machines/vm/machine.img"));
}

#[test]
fn resize_only_grows_a_stopped_disk() {
    let dao = build_dao();
    let mut machine = build_machine("vm");
    let mut system = SystemMock::new();
    assert!(matches!(dao.resize(&mut system, &mut machine, 1), Err(Error::CannotShrinkDisk(_))));
    let line = dao.resize_command(&machine, 4294967296).get_command();
    assert_eq!(line, "qemu-img resize /data/machines/vm/machine.img 4294967296");
    let mut system = SystemMock::new().add_command_output(&line, b"");
    dao.resize(&mut system, &mut machine, 4294967296).unwrap();
    assert_eq!(machine.disk_capacity, 4294967296);
    let mut running = SystemMock::new()
        .add_file("/run/user/1000/cubic/machines/vm/qemu.pid", b"42")
        .add_dir("/proc/42");
    assert!(matches!(dao.resize(&mut running, &mut machine, 8589934592), Err(Error::MachineNotStopped(_))));
}

#[test]
fn delete_removes_both_directories() {
    let dao = build_dao();
    let mut system = SystemMock::new()
        .add_file("/data/machines/vm/machine.img", b"disk")
        .add_file("/run/user/1000/cubic/machines/vm/console", b"");
    dao.delete(&mut system, &build_machine("vm")).unwrap();
    assert!(!system.exists_path("/data/machines/vm/machine.img"));
    assert!(!system.exists_path("/run/user/1000/cubic/machines/vm/console"));
    assert_eq!(dao.get_machines(&system), Vec::<String>::new());
}

#[test]
fn get_machines_lists_the_machine_names() {
    let dao = build_dao();
    let system = SystemMock::new().add_dir("/data/machines/a").add_dir("/data/machines/b");
    let mut names = dao.get_machines(&system);
    names.sort();
    assert_eq!(names, vec!["a".to_string(), "b".to_string()]);
    assert!(dao.does_exist(&system, "a"));
    assert!(!dao.does_exist(&system, "c"));
}

#[test]
fn a_running_machine_cannot_be_started_again() {
    let dao = build_dao();
    let running = SystemMock::new()
        .add_file("/run/user/1000/cubic/machines/vm/qemu.pid", b"42")
        .add_dir("/proc/42");
    assert!(matches!(dao.check_start(&running, &build_machine("vm")), Err(Error::MachineIsRunning(n)) if n == "vm"));
    assert!(dao.check_start(&SystemMock::new(), &build_machine("vm")).is_ok());
}

#[test]
fn resize_fails_where_qemu_img_cannot_be_started() {
    let dao = build_dao();
    let mut machine = build_machine("vm");
    let mut system = SystemMock::new();
    assert!(matches!(dao.resize(&mut system, &mut machine, 4294967296), Err(Error::Io(_))));
    assert_eq!(machine.disk_capacity, 2361393152);
}

#[test]
fn resize_does_not_look_at_the_exit_status() {
    let dao = build_dao();
    let mut machine = build_machine("vm");
    let line = dao.resize_command(&machine, 4294967296).get_command();
    let mut system = SystemMock::new().add_failing_command(&line, "bad size");
    dao.resize(&mut system, &mut machine, 4294967296).unwrap();
    assert_eq!(machine.disk_capacity, 4294967296);
}

#[test]
fn check_load_refuses_an_unknown_machine() {
    let dao = build_dao();
    let system = SystemMock::new();
    assert!(matches!(dao.check_load(&system, "vm"), Err(Error::UnknownMachine(n)) if n == "vm"));
    let system = SystemMock::new().add_dir("/data/machines/vm");
    assert_eq!(dao.check_load(&system, "vm").unwrap(), "/data/machines/vm/machine.yaml");
}

#[test]
fn check_stop_leaves_a_stopped_machine_alone() {
    let dao = build_dao();
    let machine = build_machine("vm");
    assert_eq!(dao.check_stop(&SystemMock::new(), &machine), None);
    let running = SystemMock::new()
        .add_file("/run/user/1000/cubic/machines/vm/qemu.pid", b"42")
        .add_dir("/proc/42");
    assert_eq!(
        dao.check_stop(&running, &machine),
        Some("/run/user/1000/cubic/machines/vm/qmp.socket".to_string())
    );
}
