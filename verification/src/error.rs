use vstd::prelude::*;
use vstd::string::StringExecFns;
use crate::text::{decimal, decimal_string};

verus! {

/// The failures the library reports.
#[derive(Debug, PartialEq, Eq)]
pub enum Error {
    UnknownArch(String),
    InvalidUsername(String),
    UnknownMachine(String),
    MachineAlreadyExists(String),
    MachineNotStopped(String),
    MachineIsRunning(String),
    CannotShrinkDisk(String),
    CannotCreateFile(String),
    InstanceNotRunning(String),
    HostfwdCommandFailed(String),
    SystemCommandFailed(String, String),
    SystemCommandNotFound(String),
    QemuNotFound,
    OvmfNotFound,
    ArmFirmwareNotFound,
    ProcessNotFound(u64),
    KillFailed(u64),
    FS(String),
    NoPortAvailable,
    CannotParseFile(String),
    CannotWriteFile(String),
    ExecFailed,
    InvalidMessage(String),
    ConnectionFailed(u16, String),
    Io(String),
    TlsConnection(String),
}

/// The message an error is shown with.
pub open spec fn error_message(e: Error) -> Seq<char> {
    match e {
        Error::UnknownArch(a) => "Unknown architecture: "@ + "'"@ + a@ + "'"@,
        Error::InvalidUsername(u) => "Invalid user name: "@ + "'"@ + u@ + "'"@,
        Error::UnknownMachine(m) => "Unknown machine: "@ + "'"@ + m@ + "'"@,
        Error::MachineAlreadyExists(m) => "Machine already exists: "@ + "'"@ + m@ + "'"@,
        Error::MachineNotStopped(m) => "Machine is not stopped: "@ + "'"@ + m@ + "'"@,
        Error::MachineIsRunning(m) => "Machine is already running: "@ + "'"@ + m@ + "'"@,
        Error::CannotShrinkDisk(m) => "Cannot shrink the disk of machine "@ + "'"@ + m@ + "'"@,
        Error::CannotCreateFile(f) => "Cannot create file "@ + "'"@ + f@ + "'"@,
        Error::InstanceNotRunning(m) => "Instance is not running: "@ + "'"@ + m@ + "'"@,
        Error::HostfwdCommandFailed(o) => "Port forward command failed: "@ + o@,
        Error::SystemCommandFailed(c, e) => "Command failed: "@ + "'"@ + c@ + "'"@ + ": "@ + e@,
        Error::SystemCommandNotFound(p) => "Command not found: "@ + "'"@ + p@ + "'"@,
        Error::QemuNotFound => "QEMU is not installed"@,
        Error::OvmfNotFound => "No OVMF firmware found"@,
        Error::ArmFirmwareNotFound => "No ARM firmware found"@,
        Error::ProcessNotFound(p) => "Process not found: "@ + decimal(p as nat),
        Error::KillFailed(p) => "Cannot kill process "@ + decimal(p as nat),
        Error::FS(m) => m@,
        Error::NoPortAvailable => "No free port available"@,
        Error::CannotParseFile(f) => "Cannot parse file "@ + "'"@ + f@ + "'"@,
        Error::CannotWriteFile(f) => "Cannot write file "@ + "'"@ + f@ + "'"@,
        Error::ExecFailed => "Cannot execute the command in the guest"@,
        Error::InvalidMessage(m) => "Invalid message: "@ + m@,
        Error::ConnectionFailed(p, m) => "Cannot connect to port "@ + decimal(p as nat) + ": "@ + m@,
        Error::Io(m) => m@,
        Error::TlsConnection(m) => "TLS connection failed: "@ + m@,
    }
}

fn quoted(prefix: &str, value: &String) -> (r: String)
    ensures
        r@ == prefix@ + "'"@ + value@ + "'"@,
{
    let mut r = String::from_str(prefix);
    r.append("'");
    r.append(value.as_str());
    r.append("'");
    r
}

impl Error {
    /// The message the error is shown with.
    pub fn to_string(&self) -> (r: String)
        ensures
            r@ == error_message(*self),
    {
        proof { reveal_strlit("'"); }
        match self {
            Error::UnknownArch(a) => { let r = quoted("Unknown architecture: ", a); assert(r@ =~= error_message(*self)); r },
            Error::InvalidUsername(u) => { let r = quoted("Invalid user name: ", u); assert(r@ =~= error_message(*self)); r },
            Error::UnknownMachine(m) => { let r = quoted("Unknown machine: ", m); assert(r@ =~= error_message(*self)); r },
            Error::MachineAlreadyExists(m) => { let r = quoted("Machine already exists: ", m); assert(r@ =~= error_message(*self)); r },
            Error::MachineNotStopped(m) => { let r = quoted("Machine is not stopped: ", m); assert(r@ =~= error_message(*self)); r },
            Error::MachineIsRunning(m) => { let r = quoted("Machine is already running: ", m); assert(r@ =~= error_message(*self)); r },
            Error::CannotShrinkDisk(m) => { let r = quoted("Cannot shrink the disk of machine ", m); assert(r@ =~= error_message(*self)); r },
            Error::CannotCreateFile(f) => { let r = quoted("Cannot create file ", f); assert(r@ =~= error_message(*self)); r },
            Error::InstanceNotRunning(m) => { let r = quoted("Instance is not running: ", m); assert(r@ =~= error_message(*self)); r },
            Error::HostfwdCommandFailed(o) => {
                let mut r = String::from_str("Port forward command failed: ");
                r.append(o.as_str());
                r
            },
            Error::SystemCommandFailed(c, e) => {
                let mut r = quoted("Command failed: ", c);
                r.append(": ");
                r.append(e.as_str());
                assert(r@ =~= error_message(*self));
                r
            },
            Error::SystemCommandNotFound(p) => { let r = quoted("Command not found: ", p); assert(r@ =~= error_message(*self)); r },
            Error::QemuNotFound => String::from_str("QEMU is not installed"),
            Error::OvmfNotFound => String::from_str("No OVMF firmware found"),
            Error::ArmFirmwareNotFound => String::from_str("No ARM firmware found"),
            Error::ProcessNotFound(p) => {
                let mut r = String::from_str("Process not found: ");
                r.append(decimal_string(*p).as_str());
                r
            },
            Error::KillFailed(p) => {
                let mut r = String::from_str("Cannot kill process ");
                r.append(decimal_string(*p).as_str());
                r
            },
            Error::FS(m) => m.clone(),
            Error::NoPortAvailable => String::from_str("No free port available"),
            Error::CannotParseFile(f) => { let r = quoted("Cannot parse file ", f); assert(r@ =~= error_message(*self)); r },
            Error::CannotWriteFile(f) => { let r = quoted("Cannot write file ", f); assert(r@ =~= error_message(*self)); r },
            Error::ExecFailed => String::from_str("Cannot execute the command in the guest"),
            Error::InvalidMessage(m) => {
                let mut r = String::from_str("Invalid message: ");
                r.append(m.as_str());
                r
            },
            Error::ConnectionFailed(p, m) => {
                let mut r = String::from_str("Cannot connect to port ");
                r.append(decimal_string(*p as u64).as_str());
                r.append(": ");
                r.append(m.as_str());
                r
            },
            Error::Io(m) => m.clone(),
            Error::TlsConnection(m) => {
                let mut r = String::from_str("TLS connection failed: ");
                r.append(m.as_str());
                r
            },
        }
    }
}

} // verus!
