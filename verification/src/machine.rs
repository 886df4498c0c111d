pub mod machine_dao;

use vstd::prelude::*;

verus! {

/// A host directory mounted into a machine.
#[derive(Debug, Clone, PartialEq, Default)]
pub struct MountPoint {
    pub host: String,
    pub guest: String,
}

/// A machine and its settings, kept under a directory of its own.
#[derive(Debug, Clone, PartialEq)]
pub struct Machine {
    pub name: String,
    pub user: String,
    pub cpus: u16,
    pub mem: u64,
    pub disk_capacity: u64,
    pub ssh_port: u16,
    pub display: bool,
    pub gpu: bool,
    pub mounts: Vec<MountPoint>,
    pub hostfwd: Vec<String>,
}

} // verus!
