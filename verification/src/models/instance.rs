use vstd::prelude::*;
use crate::models::arch::Arch;
use crate::models::data_size::DataSize;
use crate::models::port_forward::PortForward;
use crate::models::user_name::{UserName, DEFAULT_USERNAME};
use crate::text::str_eq;

verus! {

/// A virtual machine and its settings. Its snapshots are kept by name.
#[derive(Debug)]
pub struct Instance {
    pub name: String,
    pub arch: Arch,
    pub user: UserName,
    pub cpus: u16,
    pub mem: DataSize,
    pub disk_used: Option<DataSize>,
    pub snapshots: Vec<String>,
    pub disk_capacity: DataSize,
    pub ssh_port: u16,
    pub monitor_port: Option<u16>,
    pub console_port: Option<u16>,
    pub hostfwd: Vec<PortForward>,
    pub execute: Option<String>,
    pub isolate: bool,
    pub ssh_host_key: Option<String>,
    pub auto_remove: bool,
}

impl Default for Instance {
    /// An unnamed AMD64 instance of the default user, with nothing set.
    fn default() -> (r: Instance)
        ensures
            r.name@ == Seq::<char>::empty(),
            r.arch == Arch::AMD64,
            r.user@ == DEFAULT_USERNAME@,
            r.cpus == 0,
            r.mem@ == 0,
            r.disk_used is None,
            r.snapshots@.len() == 0,
            r.disk_capacity@ == 0,
            r.ssh_port == 0,
            r.monitor_port is None,
            r.console_port is None,
            r.hostfwd@.len() == 0,
            r.execute is None,
            !r.isolate,
            r.ssh_host_key is None,
            !r.auto_remove,
    {
        Instance {
            name: String::new(),
            arch: Arch::AMD64,
            user: UserName::default(),
            cpus: 0,
            mem: DataSize::default(),
            disk_used: None,
            snapshots: Vec::new(),
            disk_capacity: DataSize::default(),
            ssh_port: 0,
            monitor_port: None,
            console_port: None,
            hostfwd: Vec::new(),
            execute: None,
            isolate: false,
            ssh_host_key: None,
            auto_remove: false,
        }
    }
}

impl Instance {
    /// Whether the instance has a snapshot of that name.
    pub fn has_snapshot(&self, name: &str) -> (r: bool)
        ensures
            r == exists|i: int| 0 <= i < self.snapshots@.len() && #[trigger] self.snapshots@[i]@ == name@,
    {
        let mut i: usize = 0;
        while i < self.snapshots.len()
            invariant
                0 <= i <= self.snapshots@.len(),
                forall|j: int| 0 <= j < i ==> #[trigger] self.snapshots@[j]@ != name@,
            decreases self.snapshots@.len() - i,
        {
            if str_eq(self.snapshots[i].as_str(), name) {
                return true;
            }
            i = i + 1;
        }
        false
    }
}

} // verus!
