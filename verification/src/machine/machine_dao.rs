use vstd::prelude::*;
use vstd::string::StringExecFns;
use crate::error::Error;
use crate::machine::Machine;
use crate::models::environment::{file_name, file_name_of};
use crate::platform::{FileSystem, Process};
use crate::text::{decimal, decimal_string, parse_unsigned, parse_unsigned_text, trim_text, trimmed};
use crate::util::{string_views, SystemCommand};

verus! {

/// The serial consoles a machine gets.
pub const CONSOLE_COUNT: u8 = 10;

/// The user a machine gets when its config names none.
pub const USER: &'static str = "cubic";

/// Whether a machine is up.
#[derive(Debug, Clone, Copy, PartialEq, Eq, Structural)]
pub enum MachineState {
    Stopped,
    Starting,
    Running,
}

/// The settings file of a machine: the machine under one key.
pub struct Config {
    pub machine: Machine,
}

/// Where the machines and their run-time files are kept.
pub struct MachineDao {
    pub machine_dir: String,
    pub cache_dir: String,
}

/// `dir/name`.
pub open spec fn under_dir(dir: Seq<char>, name: Seq<char>) -> Seq<char> {
    dir + "/"@ + name
}

/// The process id a pid file holds: its text without surrounding white
/// space, read as a number.
pub open spec fn pid_of(content: Result<String, Error>) -> Option<u64> {
    pid_of_text(match content { Ok(t) => Some(t@), Err(_) => None })
}

/// The process id a pid file's text holds, none where there is no text.
pub open spec fn pid_of_text(text: Option<Seq<char>>) -> Option<u64> {
    match text {
        Some(t) => match parse_unsigned(trimmed(t), u64::MAX as nat) {
            Some(v) => Some(v as u64),
            None => None,
        },
        None => None,
    }
}

/// The pid file of a machine under the run-time directory `cache`.
pub open spec fn pid_file_of(cache: Seq<char>, name: Seq<char>) -> Seq<char> {
    under_dir(under_dir(cache, name), "qemu.pid"@)
}

/// The configuration file of a machine.
pub open spec fn config_file_of(machine_dir: Seq<char>, name: Seq<char>) -> Seq<char> {
    under_dir(under_dir(machine_dir, name), "machine.yaml"@)
}

/// The QMP socket of a machine's process.
pub open spec fn qmp_socket_of(cache: Seq<char>, name: Seq<char>) -> Seq<char> {
    under_dir(under_dir(cache, name), "qmp.socket"@)
}

/// Whether the process of a machine runs on a host: its pid file names a
/// process whose directory under `/proc` the host has.
pub open spec fn machine_running<S: FileSystem>(system: &S, cache: Seq<char>, name: Seq<char>) -> bool {
    match pid_of_text(system.file_text(pid_file_of(cache, name))) {
        Some(pid) => system.path_exists("/proc/"@ + decimal(pid as nat)),
        None => false,
    }
}

/// The state of a machine: stopped without its process, running once its
/// SSH port answers, starting in between.
pub open spec fn state_of(running: bool, port_open: bool) -> MachineState {
    if !running {
        MachineState::Stopped
    } else if port_open {
        MachineState::Running
    } else {
        MachineState::Starting
    }
}

/// What resizing the disk comes to after `qemu-img` ran to its end: the
/// error of a command that could not be started or waited for; the exit
/// status is not looked at.
pub open spec fn resize_outcome(r: Result<Seq<u8>, Error>) -> Result<(), Error> {
    match r {
        Ok(_) => Ok(()),
        Err(e) => Err(e),
    }
}

/// The file names of the entries of a directory listing, in order.
pub open spec fn entry_names(listing: Seq<Seq<char>>) -> Seq<Seq<char>> {
    Seq::new(listing.len(), |i: int| file_name_of(listing[i]))
}

fn join_dir(dir: &str, name: &str) -> (r: String)
    ensures
        r@ == under_dir(dir@, name@),
{
    let mut r = String::from_str(dir);
    r.append("/");
    r.append(name);
    r
}

impl MachineDao {
    /// The machines under `machine_dir`, with their run-time files under
    /// `runtime_dir/cubic/machines`.
    pub fn new(machine_dir: &str, runtime_dir: &str) -> (r: MachineDao)
        ensures
            r.machine_dir@ == machine_dir@,
            r.cache_dir@ == runtime_dir@ + "/cubic/machines"@,
    {
        let mut cache_dir = String::from_str(runtime_dir);
        cache_dir.append("/cubic/machines");
        MachineDao { machine_dir: machine_dir.to_string(), cache_dir }
    }

    /// The directory of a machine.
    pub fn machine_path(&self, name: &str) -> (r: String)
        ensures
            r@ == under_dir(self.machine_dir@, name@),
    {
        join_dir(self.machine_dir.as_str(), name)
    }

    /// The run-time directory of a machine.
    pub fn cache_path(&self, name: &str) -> (r: String)
        ensures
            r@ == under_dir(self.cache_dir@, name@),
    {
        join_dir(self.cache_dir.as_str(), name)
    }

    /// The pid file of a machine.
    pub fn pid_file(&self, name: &str) -> (r: String)
        ensures
            r@ == under_dir(under_dir(self.cache_dir@, name@), "qemu.pid"@),
    {
        join_dir(self.cache_path(name).as_str(), "qemu.pid")
    }

    /// The names of the machines.
    pub fn get_machines<S: FileSystem>(&self, system: &S) -> (r: Vec<String>)
        ensures
            system.keeps_model() ==> (system.listing_fails(self.machine_dir@) ==> r@.len() == 0),
            system.keeps_model() ==> !system.listing_fails(self.machine_dir@) ==> exists|listing: Seq<Seq<char>>|
                system.lists(self.machine_dir@, listing) && string_views(r@) == #[trigger] entry_names(listing),
            exists|listing: Seq<Seq<char>>| string_views(r@) == #[trigger] entry_names(listing),
    {
        match system.read_dir(self.machine_dir.as_str()) {
            Ok(entries) => {
                let mut names: Vec<String> = Vec::new();
                let mut i: usize = 0;
                while i < entries.len()
                    invariant
                        0 <= i <= entries@.len(),
                        names@.len() == i,
                        forall|k: int| 0 <= k < i ==> #[trigger] names@[k]@ == file_name_of(entries@[k]@),
                    decreases entries@.len() - i,
                {
                    names.push(file_name(entries[i].as_str()));
                    i = i + 1;
                }
                assert(string_views(names@) =~= entry_names(string_views(entries@)));
                names
            },
            Err(_) => {
                let names: Vec<String> = Vec::new();
                assert(string_views(names@) =~= entry_names(Seq::empty()));
                names
            },
        }
    }

    /// Whether a machine of that name exists.
    pub fn does_exist<S: FileSystem>(&self, system: &S, name: &str) -> (r: bool)
        ensures
            system.keeps_model() ==> r == system.path_exists(under_dir(self.machine_dir@, name@)),
    {
        system.exists_path(self.machine_path(name).as_str())
    }

    /// The process id a pid file's content names.
    pub fn read_pid(content: Result<String, Error>) -> (r: Option<u64>)
        ensures
            r == pid_of(content),
    {
        match content {
            Ok(t) => parse_unsigned_text(trim_text(t.as_str()).as_str(), u64::MAX),
            Err(_) => None,
        }
    }

    fn get_pid<S: FileSystem>(&self, system: &S, machine: &Machine) -> (r: Option<u64>)
        ensures
            system.keeps_model() ==> r == pid_of_text(system.file_text(pid_file_of(self.cache_dir@, machine.name@))),
    {
        Self::read_pid(system.read_file_to_string(self.pid_file(machine.name.as_str()).as_str()))
    }

    /// Whether the process of a machine runs: its pid file names a process
    /// that the host lists.
    pub fn is_running<S: FileSystem>(&self, system: &S, machine: &Machine) -> (r: bool)
        ensures
            system.keeps_model() ==> r == machine_running(system, self.cache_dir@, machine.name@),
    {
        match self.get_pid(system, machine) {
            Some(pid) => {
                let mut proc_dir = String::from_str("/proc/");
                proc_dir.append(decimal_string(pid).as_str());
                proof { reveal_strlit("/proc/"); }
                system.exists_path(proc_dir.as_str())
            },
            None => false,
        }
    }

    /// The state of a machine, given whether its SSH port answers.
    pub fn state(running: bool, port_open: bool) -> (r: MachineState)
        ensures
            r == state_of(running, port_open),
    {
        if !running {
            MachineState::Stopped
        } else if port_open {
            MachineState::Running
        } else {
            MachineState::Starting
        }
    }

    /// The state of a machine, given whether its SSH port answers.
    pub fn get_state<S: FileSystem>(&self, system: &S, machine: &Machine, port_open: bool) -> (r: MachineState)
        ensures
            system.keeps_model() ==> r == state_of(machine_running(system, self.cache_dir@, machine.name@), port_open),
            !port_open ==> r != MachineState::Running,
    {
        Self::state(self.is_running(system, machine), port_open)
    }

    /// Why a machine cannot be copied or renamed to `new_name`: the name is
    /// taken, or the machine runs.
    pub fn check_move(name_taken: bool, running: bool, machine: &Machine, new_name: &str) -> (r: Result<(), Error>)
        ensures
            name_taken ==> (r matches Err(Error::MachineAlreadyExists(n)) && n@ == new_name@),
            !name_taken && running ==> (r matches Err(Error::MachineNotStopped(n)) && n@ == machine.name@),
            !name_taken && !running ==> r is Ok,
    {
        if name_taken {
            Err(Error::MachineAlreadyExists(new_name.to_string()))
        } else if running {
            Err(Error::MachineNotStopped(machine.name.clone()))
        } else {
            Ok(())
        }
    }

    /// Moves a machine to a new name.
    pub fn rename<S: FileSystem>(&self, system: &mut S, machine: &mut Machine, new_name: &str) -> (r: Result<(), Error>)
        ensures
            r is Ok ==> final(machine).name@ == new_name@,
            r is Err ==> *final(machine) == *old(machine),
            r matches Err(e) ==> (e matches Error::MachineAlreadyExists(n) && n@ == new_name@)
                || (e matches Error::MachineNotStopped(n) && n@ == old(machine).name@)
                || e is Io,
            old(system).keeps_model() ==> old(system).path_exists(under_dir(self.machine_dir@, new_name@))
                ==> (r matches Err(Error::MachineAlreadyExists(n)) && n@ == new_name@),
            old(system).keeps_model() ==> !old(system).path_exists(under_dir(self.machine_dir@, new_name@))
                && machine_running(&*old(system), self.cache_dir@, old(machine).name@)
                ==> (r matches Err(Error::MachineNotStopped(n)) && n@ == old(machine).name@),
    {
        let taken = self.does_exist(&*system, new_name);
        let running = self.is_running(&*system, machine);
        match Self::check_move(taken, running, machine, new_name) {
            Ok(()) => {},
            Err(e) => return Err(e),
        }
        let from = self.machine_path(machine.name.as_str());
        let to = self.machine_path(new_name);
        match system.rename_file(from.as_str(), to.as_str()) {
            Ok(()) => {
                machine.name = new_name.to_string();
                Ok(())
            },
            Err(e) => Err(Error::Io(e.to_string())),
        }
    }

    /// The command that grows the disk of a machine to `size` bytes.
    pub fn resize_command(&self, machine: &Machine, size: u64) -> (r: SystemCommand)
        ensures
            r.program_view() == "qemu-img"@,
            r.args_view() == seq!["resize"@, under_dir(under_dir(self.machine_dir@, machine.name@), "machine.img"@),
                decimal(size as nat)],
    {
        let mut cmd = SystemCommand::new("qemu-img");
        let image = join_dir(self.machine_path(machine.name.as_str()).as_str(), "machine.img");
        let size_text = decimal_string(size);
        cmd.arg("resize").arg(image.as_str()).arg(size_text.as_str());
        proof {
            assert(cmd.args_view() =~= seq!["resize"@, image@, size_text@]);
        }
        cmd
    }


    /// Grows the disk of a stopped machine; a disk never shrinks.
    pub fn resize<S: FileSystem + Process>(&self, system: &mut S, machine: &mut Machine, size: u64) -> (r: Result<(), Error>)
        ensures
            old(machine).disk_capacity >= size ==> r is Err,
            r is Ok ==> final(machine).disk_capacity == size && final(machine).name == old(machine).name,
            r is Err ==> *final(machine) == *old(machine),
            old(system).keeps_model() ==> machine_running(&*old(system), self.cache_dir@, old(machine).name@)
                ==> (r matches Err(Error::MachineNotStopped(n)) && n@ == old(machine).name@ && final(system).runs() == old(system).runs()),
            old(system).keeps_model() ==> !machine_running(&*old(system), self.cache_dir@, old(machine).name@) && old(machine).disk_capacity >= size
                ==> (r matches Err(Error::CannotShrinkDisk(n)) && n@ == old(machine).name@ && final(system).runs() == old(system).runs()),
            old(system).keeps_model() ==> !machine_running(&*old(system), self.cache_dir@, old(machine).name@) && old(machine).disk_capacity < size ==> {
                &&& final(system).runs().len() == old(system).runs().len() + 1
                &&& final(system).runs().drop_last() == old(system).runs()
                &&& final(system).runs().last().0.program_view() == "qemu-img"@
                &&& final(system).runs().last().0.args_view() == seq!["resize"@,
                    under_dir(under_dir(self.machine_dir@, old(machine).name@), "machine.img"@), decimal(size as nat)]
                &&& r == resize_outcome(final(system).runs().last().2)
            },
            r matches Err(e) ==> (e matches Error::MachineNotStopped(n) && n@ == old(machine).name@)
                || (e matches Error::CannotShrinkDisk(n) && n@ == old(machine).name@) || e is Io,
    {
        if self.is_running(&*system, machine) {
            return Err(Error::MachineNotStopped(machine.name.clone()));
        }
        if machine.disk_capacity >= size {
            return Err(Error::CannotShrinkDisk(machine.name.clone()));
        }
        let cmd = self.resize_command(machine, size);
        let out = system.run_command_to_end(&cmd);
        proof {
            if old(system).keeps_model() {
                assert(system.runs().drop_last() =~= old(system).runs());
            }
        }
        match out {
            Ok(()) => {
                machine.disk_capacity = size;
                Ok(())
            },
            Err(e) => Err(e),
        }
    }

    /// Whether a machine may be started: one whose process runs is refused.
    /// Starting it builds the QEMU command and runs it, which is the
    /// program's part.
    pub fn check_start<S: FileSystem>(&self, system: &S, machine: &Machine) -> (r: Result<(), Error>)
        ensures
            system.keeps_model() ==> machine_running(system, self.cache_dir@, machine.name@)
                ==> (r matches Err(Error::MachineIsRunning(n)) && n@ == machine.name@),
            system.keeps_model() ==> !machine_running(system, self.cache_dir@, machine.name@) ==> r is Ok,
            r matches Err(e) ==> (e matches Error::MachineIsRunning(n) && n@ == machine.name@),
    {
        if self.is_running(system, machine) {
            Err(Error::MachineIsRunning(machine.name.clone()))
        } else {
            Ok(())
        }
    }

    /// Where loading a machine reads its configuration; a machine without a
    /// directory is unknown. Reading the configuration is the program's
    /// part.
    pub fn check_load<S: FileSystem>(&self, system: &S, name: &str) -> (r: Result<String, Error>)
        ensures
            system.keeps_model() ==> (r is Err <==> !system.path_exists(under_dir(self.machine_dir@, name@))),
            r matches Ok(p) ==> p@ == config_file_of(self.machine_dir@, name@),
            r matches Err(e) ==> (e matches Error::UnknownMachine(n) && n@ == name@),
    {
        if !self.does_exist(system, name) {
            return Err(Error::UnknownMachine(name.to_string()));
        }
        let r = join_dir(self.machine_path(name).as_str(), "machine.yaml");
        proof { reveal_strlit("machine.yaml"); }
        Ok(r)
    }

    /// Where stopping a machine sends its shutdown: the QMP socket of a
    /// machine that runs. There is none for a machine that does not run,
    /// whose stop is then done without opening the monitor.
    pub fn check_stop<S: FileSystem>(&self, system: &S, machine: &Machine) -> (r: Option<String>)
        ensures
            system.keeps_model() ==> (r is Some <==> machine_running(system, self.cache_dir@, machine.name@)),
            r matches Some(p) ==> p@ == qmp_socket_of(self.cache_dir@, machine.name@),
    {
        if self.is_running(system, machine) {
            let r = join_dir(self.cache_path(machine.name.as_str()).as_str(), "qmp.socket");
            proof { reveal_strlit("qmp.socket"); }
            Some(r)
        } else {
            None
        }
    }

    /// Deletes a stopped machine and its run-time files; files that are
    /// already gone are no failure.
    pub fn delete<S: FileSystem + Process>(&self, system: &mut S, machine: &Machine) -> (r: Result<(), Error>)
        ensures
            r matches Err(e) ==> (e matches Error::MachineNotStopped(n) && n@ == machine.name@),
            old(system).keeps_model() ==> (r is Err <==> machine_running(&*old(system), self.cache_dir@, machine.name@)),
    {
        if self.is_running(&*system, machine) {
            return Err(Error::MachineNotStopped(machine.name.clone()));
        }
        let _ = system.remove_dir(self.cache_path(machine.name.as_str()).as_str());
        let _ = system.remove_dir(self.machine_path(machine.name.as_str()).as_str());
        Ok(())
    }
}

} // verus!
