pub mod file_system_mock;
pub mod secret_input;
pub mod system_mock;

pub use system_mock::{CommandResult, PortState, ProcessState, SystemMock};

use vstd::prelude::*;
use crate::error::Error;
use crate::util::SystemCommand;

verus! {

/// The standard streams a terminal writes to.
#[derive(Debug, Clone, Copy, PartialEq, Eq, Structural)]
pub enum Stream {
    Stdout,
    Stderr,
}

/// What a run of a command came to, its output as bytes.
pub open spec fn run_result_view(r: Result<Vec<u8>, Error>) -> Result<Seq<u8>, Error> {
    match r {
        Ok(v) => Ok(v@),
        Err(e) => Err(e),
    }
}

/// What a run that reads no output came to.
pub open spec fn done_view(r: Result<(), Error>) -> Result<Seq<u8>, Error> {
    match r {
        Ok(()) => Ok(Seq::empty()),
        Err(e) => Err(e),
    }
}

/// Whether a host answers as the spec functions of its traits say. The
/// host of the tests is verified to; a host implemented outside this crate
/// is not, and keeps the closed default, which claims nothing of it. The
/// contracts of the host traits, and of the functions that ask a host,
/// hold of a host that keeps its model.
pub trait HostModel {
    closed spec fn keeps_model(&self) -> bool {
        false
    }
}

/// What the host reports about itself: its environment, its size and its
/// operating system. The spec functions name what a host that keeps its
/// model answers; their closed defaults only let a host implemented outside
/// this crate compile, and are never reached through a contract, since such
/// a host does not keep its model.
pub trait Host: HostModel {
    /// The value of an environment variable of the host.
    closed spec fn env_value(&self, key: Seq<char>) -> Option<Seq<char>> {
        None
    }

    /// The total memory of the host, in bytes.
    closed spec fn host_total_memory(&self) -> u64 {
        0
    }

    /// The number of logical processors of the host.
    closed spec fn host_cpu_count(&self) -> u16 {
        0
    }

    /// The name of the host's operating system, as Rust names it.
    closed spec fn host_os(&self) -> Seq<char> {
        Seq::empty()
    }

    fn read_env_var(&self, key: &str) -> (r: Option<String>)
        ensures
            self.keeps_model() ==> (r matches Some(v) ==> self.env_value(key@) == Some(v@)),
            self.keeps_model() ==> (r is None ==> self.env_value(key@) is None);

    fn get_total_memory(&self) -> (r: u64)
        ensures
            self.keeps_model() ==> r == self.host_total_memory();

    fn get_available_memory(&self) -> u64;

    /// The number of logical processors.
    fn get_cpu_count(&self) -> (r: u16)
        ensures
            self.keeps_model() ==> r == self.host_cpu_count();

    /// The name of the operating system: `linux`, `macos`, `windows`, ...
    fn get_os(&self) -> (r: String)
        ensures
            self.keeps_model() ==> r@ == self.host_os();
}

/// The file system of the host. Paths are text. The spec functions name
/// what a host that keeps its model answers, with closed defaults as for
/// `Host`.
pub trait FileSystem: HostModel {
    /// Whether a file or directory lies at `path`.
    closed spec fn path_exists(&self, path: Seq<char>) -> bool {
        false
    }

    /// Whether a directory lies at `path`.
    closed spec fn dir_exists(&self, path: Seq<char>) -> bool {
        false
    }

    /// Whether `entries` is a listing of the directory at `path` that the
    /// host may give: its entries, in some order.
    closed spec fn lists(&self, path: Seq<char>, entries: Seq<Seq<char>>) -> bool {
        false
    }

    /// Whether listing the directory at `path` fails.
    closed spec fn listing_fails(&self, path: Seq<char>) -> bool {
        true
    }

    /// The text of the file at `path`, none where it cannot be read as text.
    closed spec fn file_text(&self, path: Seq<char>) -> Option<Seq<char>> {
        None
    }

    /// The free space the host reports for `path`, if any.
    closed spec fn free_space(&self, path: Seq<char>) -> Option<u64> {
        None
    }

    fn exists_path(&self, path: &str) -> (r: bool)
        ensures
            self.keeps_model() ==> r == self.path_exists(path@);

    fn exists_dir(&self, path: &str) -> (r: bool)
        ensures
            self.keeps_model() ==> r == self.dir_exists(path@);

    fn get_path_size(&self, path: &str) -> u64;

    /// The space left on the file system that holds `path`, if known.
    fn get_available_space(&self, path: &str) -> (r: Option<u64>)
        ensures
            self.keeps_model() ==> r == self.free_space(path@);

    fn create_dir(&mut self, path: &str) -> Result<(), Error>;

    fn create_writable_dir(&mut self, path: &str) -> Result<(), Error>;

    fn remove_dir(&mut self, path: &str) -> Result<(), Error>;

    fn read_dir(&self, path: &str) -> (r: Result<Vec<String>, Error>)
        ensures
            self.keeps_model() ==> (r is Err <==> self.listing_fails(path@)),
            self.keeps_model() ==> (r matches Ok(v) ==> self.lists(path@, crate::util::string_views(v@)));

    /// Creates an empty file, replacing one of that name.
    fn create_file(&mut self, path: &str) -> Result<(), Error>;

    /// Appends bytes to a file, creating it when missing.
    fn append_file(&mut self, path: &str, contents: &[u8]) -> Result<(), Error>;

    fn read_file(&self, path: &str) -> Result<Vec<u8>, Error>;

    fn read_file_to_string(&self, path: &str) -> (r: Result<String, Error>)
        ensures
            self.keeps_model() ==> (r matches Ok(s) ==> self.file_text(path@) == Some(s@)),
            self.keeps_model() ==> (r is Err ==> self.file_text(path@) is None);

    fn write_file(&mut self, path: &str, contents: &[u8]) -> Result<(), Error>;

    fn write_secret_file(&mut self, path: &str, contents: &[u8]) -> Result<(), Error>;

    fn rename_file(&mut self, from: &str, to: &str) -> Result<(), Error>;

    fn remove_file(&mut self, path: &str) -> Result<(), Error>;
}

/// A command handed to the host: the command, the marker and deadline of a
/// run that waits for output, and what came back.
pub type CommandRun = (SystemCommand, Option<(Seq<char>, u64)>, Result<Seq<u8>, Error>);

/// Starting and stopping processes on the host. `runs` names the commands
/// handed to a host that keeps its model, each with what came back; its
/// closed default is there as for `Host`.
pub trait Process: HostModel {
    closed spec fn runs(&self) -> Seq<CommandRun> {
        Seq::empty()
    }

    fn run_command(&mut self, command: &SystemCommand) -> (r: Result<Vec<u8>, Error>)
        ensures
            final(self).keeps_model() == old(self).keeps_model(),
            old(self).keeps_model() ==> final(self).runs() == old(self).runs().push((*command, None, run_result_view(r)));

    /// Runs a command that is not expected to end by itself until it prints
    /// `marker` on its stdout, then kills it. A command that ends first or
    /// stays silent past `timeout_ms` fails with its stderr.
    fn run_command_until_output(&mut self, command: &SystemCommand, marker: &str, timeout_ms: u64) -> (r: Result<(), Error>)
        ensures
            final(self).keeps_model() == old(self).keeps_model(),
            old(self).keeps_model() ==> final(self).runs()
                == old(self).runs().push((*command, Some((marker@, timeout_ms)), done_view(r)));

    fn spawn_command(&mut self, command: &SystemCommand) -> (r: Result<(), Error>)
        ensures
            final(self).keeps_model() == old(self).keeps_model(),
            old(self).keeps_model() ==> final(self).runs() == old(self).runs().push((*command, None, done_view(r)));

    /// Runs a command to its end with no input and no output, whatever its
    /// exit status. It fails only where the command cannot be started or
    /// waited for, and then with an `Io` error.
    fn run_command_to_end(&mut self, command: &SystemCommand) -> (r: Result<(), Error>)
        ensures
            final(self).keeps_model() == old(self).keeps_model(),
            old(self).keeps_model() ==> final(self).runs() == old(self).runs().push((*command, None, done_view(r))),
            r matches Err(e) ==> e is Io;

    fn exists_process(&self, pid: u64) -> bool;

    fn kill_process(&mut self, pid: u64) -> Result<(), Error>;
}

/// Loopback ports of the host.
pub trait Network {
    /// Takes a free loopback port and reports its number.
    fn bind_port(&mut self) -> Result<u16, Error>;
}

/// The terminal the program talks to.
pub trait Terminal {
    fn print(&mut self, stream: Stream, msg: &str);

    fn println(&mut self, stream: Stream, msg: &str);

    fn flush(&mut self, stream: Stream);

    fn is_terminal(&self, stream: Stream) -> bool;

    fn read_input(&mut self) -> String;

    /// Reads a line without showing it; fails where the line cannot be read.
    fn read_secret(&mut self) -> Result<String, ()>;

    fn raw_mode(&mut self);

    fn reset(&mut self);
}

/// The whole host, for callers that reach for more than one resource.
pub trait System: FileSystem + Process + Host {}

impl<T: FileSystem + Process + Host> System for T {}

} // verus!
