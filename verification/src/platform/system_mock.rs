use vstd::prelude::*;
use vstd::string::StringExecFns;
use crate::error::Error;
use crate::platform::{done_view, run_result_view, CommandRun, Host, HostModel, Network, Process, Stream, Terminal};
use crate::text::{trim_text, trimmed};
use crate::text::str_eq;
use crate::util::{string_views, SystemCommand};

verus! {

/// How a seeded pid answers a kill. Every state is seen by a liveness
/// check; they differ in what a kill does.
#[derive(Debug, Clone, Copy, PartialEq, Eq, Structural)]
pub enum ProcessState {
    /// Dies when killed.
    Alive,
    /// Stays alive and reports a failure, as a kill the host rejects.
    Unkillable,
    /// Is already gone when the kill lands.
    Vanished,
}

/// How a seeded command answers a run.
pub enum CommandResult {
    /// Exits successfully with this on stdout.
    Output(Vec<u8>),
    /// Exits with a failure carrying this on stderr.
    Failure(String),
}

/// A seeded command answer as values.
pub enum CommandAnswer {
    Output(Seq<u8>),
    Failure(Seq<char>),
}

impl View for CommandResult {
    type V = CommandAnswer;

    open spec fn view(&self) -> CommandAnswer {
        match self {
            CommandResult::Output(o) => CommandAnswer::Output(o@),
            CommandResult::Failure(e) => CommandAnswer::Failure(e@),
        }
    }
}

/// The value last recorded under `key` in a log of entries.
pub open spec fn last_entry<K, V>(log: Seq<(K, V)>, key: K) -> Option<V>
    decreases log.len(),
{
    if log.len() == 0 {
        None
    } else if log.last().0 == key {
        Some(log.last().1)
    } else {
        last_entry(log.drop_last(), key)
    }
}

/// Entries with other keys behind position `i` do not change what a key
/// last recorded.
pub proof fn lemma_last_entry_skip<K, V>(log: Seq<(K, V)>, i: int, key: K)
    requires
        0 <= i <= log.len(),
        forall|j: int| i <= j < log.len() ==> #[trigger] log[j].0 != key,
    ensures
        last_entry(log, key) == last_entry(log.take(i), key),
    decreases log.len() - i,
{
    if i < log.len() {
        assert(log.drop_last().take(i) =~= log.take(i));
        lemma_last_entry_skip(log.drop_last(), i, key);
    } else {
        assert(log.take(i) =~= log);
    }
}

/// The value of `key` when an entry at `i` holds it and none behind it does.
pub proof fn lemma_last_entry_found<K, V>(log: Seq<(K, V)>, i: int, key: K)
    requires
        0 <= i < log.len(),
        log[i].0 == key,
        forall|j: int| i < j < log.len() ==> #[trigger] log[j].0 != key,
    ensures
        last_entry(log, key) == Some(log[i].1),
{
    lemma_last_entry_skip(log, i + 1, key);
    assert(log.take(i + 1).last() == log[i]);
}

/// A host made of plain values for tests: its environment and size, the
/// pids it knows, the commands it can answer, and its files and
/// directories. Every table is a log in which the last entry of a key wins.
pub struct SystemMock {
    pub(crate) env_vars: Vec<(String, String)>,
    pub(crate) total_memory: u64,
    pub(crate) available_memory: u64,
    pub(crate) cpu_count: u16,
    pub(crate) processes: Vec<(u64, Option<ProcessState>)>,
    pub(crate) killed: Vec<u64>,
    pub(crate) commands: Vec<(String, CommandResult)>,
    pub(crate) executed: Vec<String>,
    pub(crate) files: Vec<(String, Option<Vec<u8>>)>,
    pub(crate) dirs: Vec<(String, bool)>,
    pub(crate) ports: Vec<(u16, PortState)>,
    pub(crate) output: String,
    pub(crate) input: Vec<String>,
    pub(crate) input_read: usize,
    pub(crate) os: String,
    pub(crate) run_log: Ghost<Seq<CommandRun>>,
}

/// What a seeded port does when it is dialled.
#[derive(Debug, Clone, Copy, PartialEq, Eq, Structural)]
pub enum PortState {
    /// Accepts and greets the caller, the way a ready service does.
    Listening,
    /// Accepts and then says nothing, like a forward whose service is not
    /// up yet.
    Silent,
    /// Handed out by a bind; nothing listens on it.
    Bound,
}

impl SystemMock {
    /// Everything printed so far.
    pub closed spec fn output_view(&self) -> Seq<char> {
        self.output@
    }

    /// The lines queued for reading, read or not.
    pub closed spec fn input_view(&self) -> Seq<Seq<char>> {
        crate::util::string_views(self.input@)
    }

    /// How many queued lines were read.
    pub closed spec fn input_pos(&self) -> nat {
        self.input_read as nat
    }

    /// Whether the host knows of a port: seeded, or handed out by a bind.
    pub closed spec fn port_known(&self, port: u16) -> bool {
        exists|i: int| 0 <= i < self.ports@.len() && #[trigger] self.ports@[i].0 == port
    }

    pub closed spec fn env_log(&self) -> Seq<(Seq<char>, Seq<char>)> {
        Seq::new(self.env_vars@.len(), |i: int| (self.env_vars@[i].0@, self.env_vars@[i].1@))
    }

    pub closed spec fn process_log(&self) -> Seq<(u64, Option<ProcessState>)> {
        self.processes@
    }

    pub closed spec fn command_log(&self) -> Seq<(Seq<char>, CommandAnswer)> {
        Seq::new(self.commands@.len(), |i: int| (self.commands@[i].0@, self.commands@[i].1@))
    }

    pub closed spec fn killed_view(&self) -> Seq<u64> {
        self.killed@
    }

    pub closed spec fn executed_view(&self) -> Seq<Seq<char>> {
        string_views(self.executed@)
    }

    pub closed spec fn total_memory_view(&self) -> u64 {
        self.total_memory
    }

    pub closed spec fn available_memory_view(&self) -> u64 {
        self.available_memory
    }

    pub closed spec fn os_view(&self) -> Seq<char> {
        self.os@
    }

    pub closed spec fn cpu_count_view(&self) -> u16 {
        self.cpu_count
    }

    /// The value of an environment variable.
    pub open spec fn env_var(&self, key: Seq<char>) -> Option<Seq<char>> {
        last_entry(self.env_log(), key)
    }

    /// The state of a pid, `None` for a pid the host does not know.
    pub open spec fn process_state(&self, pid: u64) -> Option<ProcessState> {
        match last_entry(self.process_log(), pid) {
            Some(s) => s,
            None => None,
        }
    }

    /// The answer seeded for a command line.
    pub open spec fn command_answer(&self, line: Seq<char>) -> Option<CommandAnswer> {
        last_entry(self.command_log(), line)
    }

    /// Whether only the process table and the kill record may differ.
    pub open spec fn same_except_processes(&self, other: &SystemMock) -> bool {
        &&& self.env_log() == other.env_log()
        &&& self.command_log() == other.command_log()
        &&& self.executed_view() == other.executed_view()
        &&& self.total_memory_view() == other.total_memory_view()
        &&& self.available_memory_view() == other.available_memory_view()
        &&& self.cpu_count_view() == other.cpu_count_view()
    }

    /// An empty host of 16 GiB and 8 threads, roomy enough that a test that
    /// does not care about the size never hits a limit.
    pub fn new() -> (r: SystemMock)
        ensures
            r.env_log() == Seq::<(Seq<char>, Seq<char>)>::empty(),
            r.process_log() == Seq::<(u64, Option<ProcessState>)>::empty(),
            r.killed_view() == Seq::<u64>::empty(),
            r.command_log() == Seq::<(Seq<char>, CommandAnswer)>::empty(),
            r.executed_view() == Seq::<Seq<char>>::empty(),
            r.total_memory_view() == 17179869184,
            r.available_memory_view() == 17179869184,
            r.cpu_count_view() == 8,
            r.output_view().len() == 0,
            r.input_view().len() == 0,
            r.input_pos() == 0,
            r.host_os() == "linux"@,
            forall|p: u16| !r.port_known(p),
    {
        let r = SystemMock {
            env_vars: Vec::new(),
            total_memory: 17179869184,
            available_memory: 17179869184,
            cpu_count: 8,
            processes: Vec::new(),
            killed: Vec::new(),
            commands: Vec::new(),
            executed: Vec::new(),
            files: Vec::new(),
            dirs: Vec::new(),
            ports: Vec::new(),
            output: String::new(),
            input: Vec::new(),
            input_read: 0,
            os: String::from_str("linux"),
            run_log: Ghost(Seq::empty()),
        };
        assert(r.env_log() =~= Seq::<(Seq<char>, Seq<char>)>::empty());
        assert(r.command_log() =~= Seq::<(Seq<char>, CommandAnswer)>::empty());
        assert(r.executed_view() =~= Seq::<Seq<char>>::empty());
        assert(r.input_view() =~= Seq::<Seq<char>>::empty());
        r
    }

    /// Sets an environment variable of the host.
    pub fn add_env_var(self, key: &str, value: &str) -> (r: SystemMock)
        ensures
            r.env_log() == self.env_log().push((key@, value@)),
            r.process_log() == self.process_log(),
            r.killed_view() == self.killed_view(),
            r.command_log() == self.command_log(),
            r.executed_view() == self.executed_view(),
    {
        let mut s = self;
        s.env_vars.push((key.to_string(), value.to_string()));
        assert(s.env_log() =~= self.env_log().push((key@, value@)));
        s
    }

    /// Sets the operating system the host reports.
    pub fn set_os(self, os: &str) -> (r: SystemMock)
        ensures
            r.host_os() == os@,
            r.env_log() == self.env_log(),
    {
        let mut s = self;
        s.os = os.to_string();
        s
    }

    /// Sets the totals the host reports about its size.
    pub fn set_host_resources(self, total_memory: u64, available_memory: u64, cpu_count: u16) -> (r: SystemMock)
        ensures
            r.total_memory_view() == total_memory,
            r.available_memory_view() == available_memory,
            r.cpu_count_view() == cpu_count,
            r.env_log() == self.env_log(),
            r.process_log() == self.process_log(),
            r.command_log() == self.command_log(),
    {
        let mut s = self;
        s.total_memory = total_memory;
        s.available_memory = available_memory;
        s.cpu_count = cpu_count;
        s
    }

    fn add_process_state(self, pid: u64, state: ProcessState) -> (r: SystemMock)
        ensures
            r.process_log() == self.process_log().push((pid, Some(state))),
            r.killed_view() == self.killed_view(),
            r.same_except_processes(&self),
    {
        let mut s = self;
        s.processes.push((pid, Some(state)));
        s
    }

    /// Seeds a pid that dies when killed.
    pub fn add_process(self, pid: u64) -> (r: SystemMock)
        ensures
            r.process_log() == self.process_log().push((pid, Some(ProcessState::Alive))),
            r.killed_view() == self.killed_view(),
            r.same_except_processes(&self),
    {
        self.add_process_state(pid, ProcessState::Alive)
    }

    /// Seeds a pid whose kill the host rejects.
    pub fn add_unkillable_process(self, pid: u64) -> (r: SystemMock)
        ensures
            r.process_log() == self.process_log().push((pid, Some(ProcessState::Unkillable))),
            r.killed_view() == self.killed_view(),
            r.same_except_processes(&self),
    {
        self.add_process_state(pid, ProcessState::Unkillable)
    }

    /// Seeds a pid that is gone by the time a kill lands.
    pub fn add_vanishing_process(self, pid: u64) -> (r: SystemMock)
        ensures
            r.process_log() == self.process_log().push((pid, Some(ProcessState::Vanished))),
            r.killed_view() == self.killed_view(),
            r.same_except_processes(&self),
    {
        self.add_process_state(pid, ProcessState::Vanished)
    }

    /// The pids a kill took down, in order.
    pub fn get_killed_processes(&self) -> (r: Vec<u64>)
        ensures
            r@ == self.killed_view(),
    {
        self.killed.clone()
    }

    /// Seeds a command line that succeeds with `stdout`.
    pub fn add_command_output(self, command: &str, stdout: &[u8]) -> (r: SystemMock)
        ensures
            r.command_log() == self.command_log().push((command@, CommandAnswer::Output(stdout@))),
            r.env_log() == self.env_log(),
            r.process_log() == self.process_log(),
            r.executed_view() == self.executed_view(),
    {
        let mut s = self;
        let out = vstd::slice::slice_to_vec(stdout);
        s.commands.push((command.to_string(), CommandResult::Output(out)));
        assert(s.command_log() =~= self.command_log().push((command@, CommandAnswer::Output(stdout@))));
        s
    }

    /// Seeds a command line that fails with `stderr`.
    pub fn add_failing_command(self, command: &str, stderr: &str) -> (r: SystemMock)
        ensures
            r.command_log() == self.command_log().push((command@, CommandAnswer::Failure(stderr@))),
            r.env_log() == self.env_log(),
            r.process_log() == self.process_log(),
            r.executed_view() == self.executed_view(),
    {
        let mut s = self;
        s.commands.push((command.to_string(), CommandResult::Failure(stderr.to_string())));
        assert(s.command_log() =~= self.command_log().push((command@, CommandAnswer::Failure(stderr@))));
        s
    }

    /// Every command line the host was asked to run, seeded or not, in
    /// order.
    pub fn get_executed_commands(&self) -> (r: Vec<String>)
        ensures
            string_views(r@) == self.executed_view(),
    {
        let mut r: Vec<String> = Vec::new();
        let mut i: usize = 0;
        while i < self.executed.len()
            invariant
                0 <= i <= self.executed@.len(),
                r@ == self.executed@.take(i as int),
            decreases self.executed@.len() - i,
        {
            r.push(self.executed[i].clone());
            assert(r@ =~= self.executed@.take(i as int + 1));
            i = i + 1;
        }
        assert(r@ =~= self.executed@);
        r
    }

    /// Looks up the answer seeded for a command line.
    fn find_command(&self, line: &str) -> (r: Option<usize>)
        ensures
            r is None ==> self.command_answer(line@) is None,
            r matches Some(i) ==> i < self.commands@.len() && self.command_answer(line@) == Some(self.commands@[i as int].1@),
    {
        let ghost log = self.command_log();
        let mut i: usize = self.commands.len();
        while i > 0
            invariant
                i <= self.commands@.len(),
                log == self.command_log(),
                forall|j: int| i <= j < log.len() ==> #[trigger] log[j].0 != line@,
            decreases i,
        {
            if str_eq(self.commands[i - 1].0.as_str(), line) {
                proof { lemma_last_entry_found(log, i - 1, line@); }
                return Some(i - 1);
            }
            i = i - 1;
        }
        proof { lemma_last_entry_skip(log, 0, line@); }
        None
    }

    /// Runs a command against the seeded answers: the line is recorded,
    /// an unseeded line is a program the host does not have.
    fn answer_command(&mut self, command: &SystemCommand) -> (r: Result<Vec<u8>, Error>)
        ensures
            final(self).executed_view() == old(self).executed_view().push(command.line()),
            final(self).command_log() == old(self).command_log(),
            final(self).env_log() == old(self).env_log(),
            final(self).process_log() == old(self).process_log(),
            final(self).killed_view() == old(self).killed_view(),
            final(self).run_log@ == old(self).run_log@.push((*command, None, run_result_view(r))),
            match old(self).command_answer(command.line()) {
                None => r matches Err(Error::SystemCommandNotFound(p)) && p@ == command.program_view(),
                Some(CommandAnswer::Failure(e)) => r matches Err(Error::SystemCommandFailed(l, s))
                    && l@ == command.line() && s@ == e,
                Some(CommandAnswer::Output(o)) => r matches Ok(out) && out@ == o,
            },
    {
        let line = command.get_command();
        let found = self.find_command(line.as_str());
        self.executed.push(line.clone());
        assert(self.executed_view() =~= old(self).executed_view().push(command.line()));
        let r = match found {
            None => Err(Error::SystemCommandNotFound(command.get_program().to_string())),
            Some(i) => match &self.commands[i].1 {
                CommandResult::Failure(stderr) => Err(Error::SystemCommandFailed(line, stderr.clone())),
                CommandResult::Output(stdout) => Ok(stdout.clone()),
            },
        };
        self.run_log = Ghost(self.run_log@.push((*command, None, run_result_view(r))));
        r
    }

    /// Looks up the state of a pid.
    fn find_process(&self, pid: u64) -> (r: Option<ProcessState>)
        ensures
            r == self.process_state(pid),
    {
        let ghost log = self.process_log();
        let mut i: usize = self.processes.len();
        while i > 0
            invariant
                i <= self.processes@.len(),
                log == self.process_log(),
                forall|j: int| i <= j < log.len() ==> #[trigger] log[j].0 != pid,
            decreases i,
        {
            if self.processes[i - 1].0 == pid {
                proof { lemma_last_entry_found(log, i - 1, pid); }
                return self.processes[i - 1].1;
            }
            i = i - 1;
        }
        proof { lemma_last_entry_skip(log, 0, pid); }
        None
    }

    /// Looks up an environment variable.
    fn find_env_var(&self, key: &str) -> (r: Option<String>)
        ensures
            r is None ==> self.env_var(key@) is None,
            r matches Some(v) ==> self.env_var(key@) == Some(v@),
    {
        let ghost log = self.env_log();
        let mut i: usize = self.env_vars.len();
        while i > 0
            invariant
                i <= self.env_vars@.len(),
                log == self.env_log(),
                forall|j: int| i <= j < log.len() ==> #[trigger] log[j].0 != key@,
            decreases i,
        {
            if str_eq(self.env_vars[i - 1].0.as_str(), key) {
                proof { lemma_last_entry_found(log, i - 1, key@); }
                return Some(self.env_vars[i - 1].1.clone());
            }
            i = i - 1;
        }
        proof { lemma_last_entry_skip(log, 0, key@); }
        None
    }
}

/// The host of the tests answers as its model says: each spec function of
/// the host traits is defined from its tables, and each method is verified
/// against it.
impl HostModel for SystemMock {
    open spec fn keeps_model(&self) -> bool {
        true
    }
}

impl Host for SystemMock {
    open spec fn env_value(&self, key: Seq<char>) -> Option<Seq<char>> {
        self.env_var(key)
    }

    open spec fn host_total_memory(&self) -> u64 {
        self.total_memory_view()
    }

    open spec fn host_cpu_count(&self) -> u16 {
        self.cpu_count_view()
    }

    /// A new mock stands for a Linux host.
    open spec fn host_os(&self) -> Seq<char> {
        self.os_view()
    }

    fn get_os(&self) -> (r: String) {
        self.os.clone()
    }

    fn read_env_var(&self, key: &str) -> (r: Option<String>)
        ensures
            r is None ==> self.env_var(key@) is None,
            r matches Some(v) ==> self.env_var(key@) == Some(v@),
    {
        self.find_env_var(key)
    }

    fn get_total_memory(&self) -> (r: u64)
        ensures
            r == self.total_memory_view(),
    {
        self.total_memory
    }

    fn get_available_memory(&self) -> (r: u64)
        ensures
            r == self.available_memory_view(),
    {
        self.available_memory
    }

    fn get_cpu_count(&self) -> (r: u16)
        ensures
            r == self.cpu_count_view(),
    {
        self.cpu_count
    }
}

impl Process for SystemMock {
    closed spec fn runs(&self) -> Seq<CommandRun> {
        self.run_log@
    }

    fn run_command(&mut self, command: &SystemCommand) -> (r: Result<Vec<u8>, Error>)
        ensures
            final(self).executed_view() == old(self).executed_view().push(command.line()),
            final(self).command_log() == old(self).command_log(),
            final(self).process_log() == old(self).process_log(),
            match old(self).command_answer(command.line()) {
                None => r matches Err(Error::SystemCommandNotFound(p)) && p@ == command.program_view(),
                Some(CommandAnswer::Failure(e)) => r matches Err(Error::SystemCommandFailed(l, s))
                    && l@ == command.line() && s@ == e,
                Some(CommandAnswer::Output(o)) => r matches Ok(out) && out@ == o,
            },
    {
        self.answer_command(command)
    }

    /// A seeded command stands for one that comes up and prints the marker,
    /// so neither the marker nor the deadline matters.
    fn run_command_until_output(&mut self, command: &SystemCommand, marker: &str, timeout_ms: u64) -> (r: Result<(), Error>)
        ensures
            final(self).executed_view() == old(self).executed_view().push(command.line()),
            final(self).command_log() == old(self).command_log(),
            final(self).env_log() == old(self).env_log(),
            match old(self).command_answer(command.line()) {
                None => r matches Err(Error::SystemCommandNotFound(p)) && p@ == command.program_view(),
                Some(CommandAnswer::Failure(e)) => r matches Err(Error::SystemCommandFailed(l, s))
                    && l@ == command.line() && s@ == e,
                Some(CommandAnswer::Output(o)) => r is Ok,
            },
    {
        let ghost before = self.run_log@;
        let r = match self.answer_command(command) {
            Ok(_) => Ok(()),
            Err(e) => Err(e),
        };
        self.run_log = Ghost(before.push((*command, Some((marker@, timeout_ms)), done_view(r))));
        r
    }

    /// A detached start only reports whether the host could launch it.
    fn spawn_command(&mut self, command: &SystemCommand) -> (r: Result<(), Error>)
        ensures
            final(self).executed_view() == old(self).executed_view().push(command.line()),
            final(self).command_log() == old(self).command_log(),
            match old(self).command_answer(command.line()) {
                None => r matches Err(Error::SystemCommandNotFound(p)) && p@ == command.program_view(),
                Some(CommandAnswer::Failure(e)) => r matches Err(Error::SystemCommandFailed(l, s))
                    && l@ == command.line() && s@ == e,
                Some(CommandAnswer::Output(o)) => r is Ok,
            },
    {
        let ghost before = self.run_log@;
        let r = match self.answer_command(command) {
            Ok(_) => Ok(()),
            Err(e) => Err(e),
        };
        self.run_log = Ghost(before.push((*command, None, done_view(r))));
        r
    }

    /// An unseeded command is a program the host cannot start; a seeded one
    /// runs to its end, and a seeded failure only sets its exit status.
    fn run_command_to_end(&mut self, command: &SystemCommand) -> (r: Result<(), Error>)
        ensures
            final(self).executed_view() == old(self).executed_view().push(command.line()),
            final(self).command_log() == old(self).command_log(),
            final(self).process_log() == old(self).process_log(),
            match old(self).command_answer(command.line()) {
                None => r matches Err(Error::Io(p)) && p@ == command.program_view(),
                Some(_) => r is Ok,
            },
    {
        let ghost before = self.run_log@;
        let r = match self.answer_command(command) {
            Err(Error::SystemCommandNotFound(p)) => Err(Error::Io(p)),
            _ => Ok(()),
        };
        self.run_log = Ghost(before.push((*command, None, done_view(r))));
        r
    }

    fn exists_process(&self, pid: u64) -> (r: bool)
        ensures
            r == self.process_state(pid) is Some,
    {
        self.find_process(pid).is_some()
    }

    /// Kills a seeded pid: an alive one dies and is recorded, an
    /// unkillable one stays, a vanishing one is gone, an unknown one is
    /// not found.
    fn kill_process(&mut self, pid: u64) -> (r: Result<(), Error>)
        ensures
            final(self).same_except_processes(&*old(self)),
            match old(self).process_state(pid) {
                None => r == Err::<(), Error>(Error::ProcessNotFound(pid))
                    && final(self).process_log() == old(self).process_log()
                    && final(self).killed_view() == old(self).killed_view(),
                Some(ProcessState::Unkillable) => r == Err::<(), Error>(Error::KillFailed(pid))
                    && final(self).process_log() == old(self).process_log()
                    && final(self).killed_view() == old(self).killed_view(),
                Some(ProcessState::Vanished) => r == Err::<(), Error>(Error::ProcessNotFound(pid))
                    && final(self).process_log() == old(self).process_log().push((pid, None))
                    && final(self).killed_view() == old(self).killed_view(),
                Some(ProcessState::Alive) => r is Ok
                    && final(self).process_log() == old(self).process_log().push((pid, None))
                    && final(self).killed_view() == old(self).killed_view().push(pid),
            },
    {
        match self.find_process(pid) {
            None => Err(Error::ProcessNotFound(pid)),
            Some(ProcessState::Unkillable) => Err(Error::KillFailed(pid)),
            Some(ProcessState::Vanished) => {
                self.processes.push((pid, None));
                Err(Error::ProcessNotFound(pid))
            },
            Some(ProcessState::Alive) => {
                self.processes.push((pid, None));
                self.killed.push(pid);
                Ok(())
            },
        }
    }
}

/// After a kill, the pid is gone, whatever its state was.
pub proof fn lemma_killed_pid_is_gone(before: SystemMock, after: SystemMock, pid: u64)
    requires
        after.process_log() == before.process_log().push((pid, None)),
    ensures
        after.process_state(pid) is None,
{
    assert(after.process_log().last() == (pid, None::<ProcessState>));
}

/// Where a bind starts looking: high, out of the range tests name by hand.
pub const FIRST_FREE_PORT: u16 = 60000;

impl SystemMock {
    fn knows_port(&self, port: u16) -> (r: bool)
        ensures
            r == self.port_known(port),
    {
        let mut i: usize = 0;
        while i < self.ports.len()
            invariant
                0 <= i <= self.ports@.len(),
                forall|j: int| 0 <= j < i ==> #[trigger] self.ports@[j].0 != port,
            decreases self.ports@.len() - i,
        {
            if self.ports[i].0 == port {
                return true;
            }
            i = i + 1;
        }
        false
    }

    fn add_port_state(self, port: u16, state: PortState) -> (r: SystemMock)
        ensures
            r.port_known(port),
            forall|p: u16| self.port_known(p) ==> r.port_known(p),
    {
        let mut s = self;
        s.ports.push((port, state));
        assert(s.ports@[s.ports@.len() - 1].0 == port);
        assert forall|p: u16| self.port_known(p) implies s.port_known(p) by {
            let i = choose|i: int| 0 <= i < self.ports@.len() && #[trigger] self.ports@[i].0 == p;
            assert(s.ports@[i] == self.ports@[i]);
        }
        s
    }

    /// A port that accepts and greets the caller.
    pub fn add_open_port(self, port: u16) -> (r: SystemMock)
        ensures
            r.port_known(port),
    {
        self.add_port_state(port, PortState::Listening)
    }

    /// A port that accepts and then says nothing.
    pub fn add_silent_port(self, port: u16) -> (r: SystemMock)
        ensures
            r.port_known(port),
    {
        self.add_port_state(port, PortState::Silent)
    }
}

impl Network for SystemMock {
    /// Takes the lowest port from `FIRST_FREE_PORT` up that the host does
    /// not know yet, and records the claim.
    fn bind_port(&mut self) -> (r: Result<u16, Error>)
        ensures
            r matches Ok(p) ==> FIRST_FREE_PORT <= p && !old(self).port_known(p) && final(self).port_known(p)
                && forall|q: u16| FIRST_FREE_PORT <= q < p ==> old(self).port_known(q),
            r is Err ==> r == Err::<u16, Error>(Error::NoPortAvailable)
                && forall|q: u16| FIRST_FREE_PORT <= q ==> old(self).port_known(q),
    {
        let mut port: u16 = FIRST_FREE_PORT;
        loop
            invariant
                FIRST_FREE_PORT <= port,
                *self == *old(self),
                forall|q: u16| FIRST_FREE_PORT <= q < port ==> old(self).port_known(q),
            decreases u16::MAX - port,
        {
            if !self.knows_port(port) {
                self.ports.push((port, PortState::Bound));
                assert(self.ports@[self.ports@.len() - 1].0 == port);
                return Ok(port);
            }
            if port == u16::MAX {
                return Err(Error::NoPortAvailable);
            }
            port = port + 1;
        }
    }
}

impl SystemMock {
    /// Queues a line the terminal reads.
    pub fn push_input(&mut self, line: &str)
        ensures
            final(self).input_view() == old(self).input_view().push(line@),
            final(self).input_pos() == old(self).input_pos(),
            final(self).output_view() == old(self).output_view(),
    {
        self.input.push(line.to_string());
        assert(self.input_view() =~= old(self).input_view().push(line@));
    }

    /// Everything printed so far, both streams together.
    pub fn get_output(&self) -> (r: String)
        ensures
            r@ == self.output_view(),
    {
        self.output.clone()
    }
}

impl Terminal for SystemMock {
    fn print(&mut self, stream: Stream, msg: &str)
        ensures
            final(self).output_view() == old(self).output_view() + msg@,
    {
        self.output.append(msg);
    }

    fn println(&mut self, stream: Stream, msg: &str)
        ensures
            final(self).output_view() == old(self).output_view() + msg@ + "\n"@,
    {
        self.output.append(msg);
        self.output.append("\n");
    }

    fn flush(&mut self, stream: Stream) {
    }

    /// A mocked host is never attended.
    fn is_terminal(&self, stream: Stream) -> (r: bool)
        ensures
            !r,
    {
        false
    }

    /// The next queued line without surrounding white space; an empty line
    /// once the queue is drained.
    fn read_input(&mut self) -> (r: String)
        ensures
            old(self).input_pos() < old(self).input_view().len() ==> r@ == trimmed(old(self).input_view()[old(self).input_pos() as int])
                && final(self).input_pos() == old(self).input_pos() + 1,
            old(self).input_pos() >= old(self).input_view().len() ==> r@.len() == 0 && final(self).input_pos() == old(self).input_pos(),
            final(self).input_view() == old(self).input_view(),
            final(self).output_view() == old(self).output_view(),
    {
        if self.input_read < self.input.len() {
            let line = trim_text(self.input[self.input_read].as_str());
            self.input_read = self.input_read + 1;
            line
        } else {
            String::new()
        }
    }

    /// The next queued line as it was queued; an empty line once the queue
    /// is drained.
    fn read_secret(&mut self) -> (r: Result<String, ()>)
        ensures
            old(self).input_pos() < old(self).input_view().len() ==> (r matches Ok(s)
                && s@ == old(self).input_view()[old(self).input_pos() as int])
                && final(self).input_pos() == old(self).input_pos() + 1,
            old(self).input_pos() >= old(self).input_view().len() ==> (r matches Ok(s) && s@.len() == 0)
                && final(self).input_pos() == old(self).input_pos(),
            final(self).input_view() == old(self).input_view(),
            final(self).output_view() == old(self).output_view(),
    {
        if self.input_read < self.input.len() {
            let line = self.input[self.input_read].clone();
            self.input_read = self.input_read + 1;
            Ok(line)
        } else {
            Ok(String::new())
        }
    }

    fn raw_mode(&mut self) {
    }

    fn reset(&mut self) {
    }
}

} // verus!
