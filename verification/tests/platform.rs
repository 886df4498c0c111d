use cubic::error::Error;
use cubic::platform::secret_input::{SecretReader, SecretStep};
use cubic::platform::system_mock::FIRST_FREE_PORT;
use cubic::platform::{FileSystem, Host, Network, Process, Stream, SystemMock, Terminal};
use cubic::util::SystemCommand;

#[test]
fn exists_process_only_finds_seeded_pids() {
    let system = SystemMock::new().add_process(42);
    assert!(system.exists_process(42));
    assert!(!system.exists_process(43));
}

#[test]
fn kill_process_records_the_pid_and_ends_the_process() {
    let mut system = SystemMock::new().add_process(42);
    system.kill_process(42).unwrap();
    assert_eq!(system.get_killed_processes(), vec![42]);
    assert!(!system.exists_process(42));
}

#[test]
fn kill_process_fails_for_an_unkillable_pid_that_stays_alive() {
    let mut system = SystemMock::new().add_unkillable_process(42);
    assert!(matches!(system.kill_process(42), Err(Error::KillFailed(42))));
    assert!(system.exists_process(42));
    assert!(system.get_killed_processes().is_empty());
}

#[test]
fn kill_process_reports_a_vanishing_process_as_gone() {
    let mut system = SystemMock::new().add_vanishing_process(42);
    assert!(system.exists_process(42));
    assert!(matches!(system.kill_process(42), Err(Error::ProcessNotFound(42))));
    assert!(!system.exists_process(42));
    assert!(system.get_killed_processes().is_empty());
}

#[test]
fn seeding_a_pid_twice_keeps_the_last_state() {
    let mut system = SystemMock::new().add_process(42).add_vanishing_process(42);
    assert!(matches!(system.kill_process(42), Err(Error::ProcessNotFound(42))));

    let mut system = SystemMock::new().add_vanishing_process(7).add_process(7);
    system.kill_process(7).unwrap();
    assert_eq!(system.get_killed_processes(), vec![7]);
}

#[test]
fn kill_process_fails_for_an_unknown_pid() {
    let mut system = SystemMock::new();
    assert!(matches!(system.kill_process(42), Err(Error::ProcessNotFound(42))));
    assert!(system.get_killed_processes().is_empty());
}

#[test]
fn run_command_returns_the_seeded_output() {
    let mut system = SystemMock::new().add_command_output("echo hello", b"hello\n");
    let mut command = SystemCommand::new("echo");
    command.arg("hello");
    assert_eq!(system.run_command(&command).unwrap(), b"hello\n");
}

#[test]
fn run_command_fails_for_an_unseeded_command() {
    let mut system = SystemMock::new();
    assert!(matches!(
        system.run_command(&SystemCommand::new("qemu-img")),
        Err(Error::SystemCommandNotFound(program)) if program == "qemu-img"
    ));
}

#[test]
fn run_command_reports_a_seeded_failure_with_its_stderr() {
    let mut system = SystemMock::new().add_failing_command("qemu-img resize", "no such file");
    let mut command = SystemCommand::new("qemu-img");
    command.arg("resize");
    assert!(matches!(
        system.run_command(&command),
        Err(Error::SystemCommandFailed(line, stderr))
            if line == "qemu-img resize" && stderr == "no such file"
    ));
}

#[test]
fn run_command_matches_on_the_arguments() {
    let mut system = SystemMock::new().add_command_output("qemu-img info a", b"a");
    let mut other = SystemCommand::new("qemu-img");
    other.arg("info").arg("b");
    assert!(system.run_command(&other).is_err());
}

#[test]
fn spawn_command_succeeds_without_returning_output() {
    let mut system = SystemMock::new().add_command_output("qemu-system-x86_64", b"ignored");
    system.spawn_command(&SystemCommand::new("qemu-system-x86_64")).unwrap();
}

#[test]
fn get_executed_commands_records_every_attempt_in_order() {
    let mut system = SystemMock::new().add_command_output("echo one", b"");
    let mut first = SystemCommand::new("echo");
    first.arg("one");
    system.run_command(&first).unwrap();
    let mut second = SystemCommand::new("echo");
    second.arg("two");
    system.run_command(&second).ok();
    assert_eq!(system.get_executed_commands(), vec!["echo one", "echo two"]);
}

#[test]
fn env_vars_read_back_the_last_value() {
    let system = SystemMock::new().add_env_var("HOME", "/a").add_env_var("HOME", "/b");
    assert_eq!(system.read_env_var("HOME"), Some("/b".to_string()));
    assert_eq!(system.read_env_var("PATH"), None);
}

#[test]
fn exists_path_returns_true_for_seeded_files_and_dirs() {
    let system = SystemMock::new().add_file("/data/foo.txt", b"hello").add_dir("/data/bar");
    assert!(system.exists_path("/data/foo.txt"));
    assert!(system.exists_path("/data/bar"));
    assert!(!system.exists_path("/data/missing"));
}

#[test]
fn exists_path_ignores_a_trailing_slash() {
    let system = SystemMock::new().add_dir("/data/bar");
    assert!(system.exists_path("/data/bar/"));
}

#[test]
fn exists_dir_holds_only_for_directories() {
    let system = SystemMock::new().add_file("/data/foo.txt", b"hello").add_dir("/data/bar");
    assert!(system.exists_dir("/data/bar"));
    assert!(!system.exists_dir("/data/foo.txt"));
    assert!(!system.exists_dir("/data/missing"));
}

#[test]
fn add_file_registers_its_parent_dirs() {
    let system = SystemMock::new().add_file("/data/sub/foo.txt", b"hello");
    assert!(system.exists_dir("/data/sub"));
    assert!(system.exists_dir("/data"));
}

#[test]
fn create_dir_registers_missing_parents() {
    let mut system = SystemMock::new();
    system.create_dir("/data/sub/deep").unwrap();
    assert!(system.exists_dir("/data/sub/deep"));
    assert!(system.exists_dir("/data/sub"));
    assert!(system.exists_dir("/data"));
}

#[test]
fn get_path_size_returns_file_length() {
    let system = SystemMock::new().add_file("/data/foo.txt", b"hello");
    assert_eq!(system.get_path_size("/data/foo.txt"), 5);
}

#[test]
fn get_path_size_sums_directory_contents_recursively() {
    let system = SystemMock::new()
        .add_file("/data/a.txt", b"12")
        .add_dir("/data/sub")
        .add_file("/data/sub/b.txt", b"345");
    assert_eq!(system.get_path_size("/data"), 5);
}

#[test]
fn read_file_to_string_returns_seeded_content() {
    let system = SystemMock::new().add_file("/data/foo.txt", b"hello");
    assert_eq!(system.read_file_to_string("/data/foo.txt").unwrap(), "hello");
}

#[test]
fn read_file_to_string_fails_when_missing() {
    let system = SystemMock::new();
    assert!(system.read_file_to_string("/data/missing").is_err());
}

#[test]
fn read_file_to_string_fails_on_bytes_that_are_no_utf8() {
    let system = SystemMock::new().add_file("/data/bin.dat", &[0xff, 0xfe, 0x41]);
    assert!(system.read_file_to_string("/data/bin.dat").is_err());
    assert!(system.read_file("/data/bin.dat").is_ok());
}

#[test]
fn create_file_then_get_written_file_returns_written_bytes() {
    let mut system = SystemMock::new();
    system.create_file("/data/out.txt").unwrap();
    system.append_file("/data/out.txt", b"hello ").unwrap();
    system.append_file("/data/out.txt", b"world").unwrap();
    assert_eq!(system.get_written_file("/data/out.txt"), Some(b"hello world".to_vec()));
}

#[test]
fn write_file_seeds_readable_content() {
    let mut system = SystemMock::new();
    system.write_file("/data/foo.txt", b"hello").unwrap();
    assert_eq!(system.read_file_to_string("/data/foo.txt").unwrap(), "hello");
}

#[test]
fn read_dir_lists_direct_children_only() {
    let system = SystemMock::new()
        .add_file("/data/a.txt", b"1")
        .add_file("/data/b.txt", b"2")
        .add_dir("/data/sub")
        .add_file("/data/sub/c.txt", b"3");
    let mut entries = system.read_dir("/data").unwrap();
    entries.sort();
    assert_eq!(entries, vec!["/data/a.txt".to_string(), "/data/b.txt".to_string(), "/data/sub".to_string()]);
}

#[test]
fn read_dir_fails_when_the_directory_is_missing() {
    let system = SystemMock::new().add_file("/data/foo.txt", b"hello");
    assert!(system.read_dir("/data/missing").is_err());
    assert!(system.read_dir("/data/foo.txt").is_err());
}

#[test]
fn rename_file_moves_content_to_new_path() {
    let mut system = SystemMock::new().add_file("/data/old.txt", b"hello");
    system.rename_file("/data/old.txt", "/data/new.txt").unwrap();
    assert!(!system.exists_path("/data/old.txt"));
    assert_eq!(system.read_file_to_string("/data/new.txt").unwrap(), "hello");
}

#[test]
fn rename_file_fails_when_source_missing() {
    let mut system = SystemMock::new();
    assert!(system.rename_file("/data/old.txt", "/data/new.txt").is_err());
}

#[test]
fn rename_file_moves_a_directory_and_its_contents() {
    let mut system = SystemMock::new()
        .add_dir("/data/old")
        .add_file("/data/old/a.txt", b"1")
        .add_dir("/data/old/sub")
        .add_file("/data/old/sub/b.txt", b"2");
    system.rename_file("/data/old", "/data/new").unwrap();
    assert!(!system.exists_path("/data/old"));
    assert!(system.exists_path("/data/new"));
    assert_eq!(system.read_file_to_string("/data/new/a.txt").unwrap(), "1");
    assert!(system.exists_path("/data/new/sub"));
    assert_eq!(system.read_file_to_string("/data/new/sub/b.txt").unwrap(), "2");
}

#[test]
fn create_file_then_rename_file_sees_the_written_content() {
    let mut system = SystemMock::new();
    system.create_file("/data/old.tmp").unwrap();
    system.append_file("/data/old.tmp", b"hello").unwrap();
    system.rename_file("/data/old.tmp", "/data/new").unwrap();
    assert_eq!(system.read_file_to_string("/data/new").unwrap(), "hello");
}

#[test]
fn remove_file_deletes_seeded_file() {
    let mut system = SystemMock::new().add_file("/data/foo.txt", b"hello");
    system.remove_file("/data/foo.txt").unwrap();
    assert!(!system.exists_path("/data/foo.txt"));
}

#[test]
fn remove_dir_deletes_directory_and_descendants() {
    let mut system = SystemMock::new().add_dir("/data/sub").add_file("/data/sub/c.txt", b"3");
    system.remove_dir("/data/sub").unwrap();
    assert!(!system.exists_path("/data/sub"));
    assert!(!system.exists_path("/data/sub/c.txt"));
}

#[test]
fn bind_port_claims_successive_free_ports() {
    let mut system = SystemMock::new();
    assert_eq!(system.bind_port().unwrap(), FIRST_FREE_PORT);
    assert_eq!(system.bind_port().unwrap(), FIRST_FREE_PORT + 1);
}

#[test]
fn bind_port_skips_a_port_the_test_already_claimed() {
    let mut system = SystemMock::new().add_open_port(FIRST_FREE_PORT);
    assert_eq!(system.bind_port().unwrap(), FIRST_FREE_PORT + 1);
    let mut silent = SystemMock::new().add_silent_port(FIRST_FREE_PORT);
    assert_eq!(silent.bind_port().unwrap(), FIRST_FREE_PORT + 1);
}

#[test]
fn println_appends_message_and_newline_to_output() {
    let mut system = SystemMock::new();
    system.println(Stream::Stdout, "hello");
    system.println(Stream::Stderr, "world");
    assert_eq!(system.get_output(), "hello\nworld\n");
    system.print(Stream::Stdout, "!");
    assert_eq!(system.get_output(), "hello\nworld\n!");
    assert!(!system.is_terminal(Stream::Stdout));
}

#[test]
fn read_input_returns_queued_input() {
    let mut system = SystemMock::new();
    system.push_input("first");
    system.push_input(" second \n");
    assert_eq!(system.read_input(), "first");
    assert_eq!(system.read_input(), "second");
    assert_eq!(system.read_input(), "");
}

#[test]
fn open_file_reads_back_seeded_content() {
    let system = SystemMock::new().add_file("/data/foo.txt", b"hello");
    let bytes = system.read_file("/data/foo.txt").unwrap();
    assert_eq!(String::from_utf8(bytes).unwrap(), "hello");
}

fn feed(bytes: &[u8]) -> SecretStep {
    let mut reader = SecretReader::new();
    for b in bytes {
        match reader.step(Some(*b)) {
            SecretStep::Continue => {}
            other => return other,
        }
    }
    reader.step(None)
}

#[test]
fn secret_reader_collects_characters_up_to_the_line_end() {
    let mut input = "pässwörd".as_bytes().to_vec();
    input.push(b'\r');
    assert!(matches!(feed(&input), SecretStep::Done(Ok(s)) if s == "pässwörd"));
    assert!(matches!(feed(b"ab\x7fc\n"), SecretStep::Done(Ok(s)) if s == "ac"));
    assert!(matches!(feed(b"\x08\x08x\n"), SecretStep::Done(Ok(s)) if s == "x"));
}

#[test]
fn secret_reader_fails_on_broken_input() {
    assert!(matches!(feed(b"abc"), SecretStep::Done(Err(()))));
    assert!(matches!(feed(b"a\xff"), SecretStep::Done(Err(()))));
    assert!(matches!(feed(b"a\xc3\n"), SecretStep::Done(Err(()))));
    assert!(matches!(feed(b"a\x03"), SecretStep::Interrupted));
}

#[test]
fn read_secret_returns_queued_input_as_it_is() {
    let mut system = SystemMock::new();
    system.push_input(" secret ");
    assert_eq!(system.read_secret(), Ok(" secret ".to_string()));
    assert_eq!(system.read_secret(), Ok(String::new()));
}
