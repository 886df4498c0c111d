use vstd::prelude::*;
use vstd::string::StringExecFns;
use crate::models::data_size::{size_text, DataSize};
use crate::text::{decimal, decimal_string};
use crate::models::environment::Environment;
use crate::platform::{FileSystem, Host};

verus! {

pub const MIB: usize = 1048576;
pub const GIB: usize = 1073741824;

/// The smallest number of vCPUs a machine can boot with.
pub const MIN_CPUS: u16 = 1;
/// The smallest memory a machine can boot with.
pub const MIN_MEMORY: usize = 536870912;
/// The smallest disk a machine can boot from.
pub const MIN_DISK: usize = 1073741824;
/// Memory kept aside for the host and the QEMU overhead.
pub const HOST_MEMORY_RESERVE: usize = 1073741824;
/// Below this much free space the host disk counts as low.
pub const LOW_DISK_SPACE: u64 = 5368709120;
pub const LOW_DISK_SPACE_WARNING: &'static str = "Low disk space detected on the host.";

/// The machine size of a level: level `n` is `2n` vCPUs and `n` GiB, level
/// 0 is one vCPU and 512 MiB. The vCPU count is narrowed to 16 bits.
pub open spec fn level_resources(level: nat) -> (u16, nat) {
    if level == 0 {
        (1u16, 512 * MIB as nat)
    } else {
        ((level * 2) as u16, level * GIB as nat)
    }
}

/// The level a host allows: the smaller of its threads and its GiB of memory
/// divided by four, minus one, and at least 0.
pub open spec fn host_level(host_mem_bytes: nat, host_threads: nat) -> nat {
    let by_threads = host_threads / 4;
    let by_memory = host_mem_bytes / (4 * GIB as nat);
    let m = if by_threads < by_memory { by_threads } else { by_memory };
    if m >= 1 { (m - 1) as nat } else { 0 }
}

/// The level a memory budget allows once the host reserve is held back, if
/// at least 512 MiB remain.
pub open spec fn budget_level(available: nat) -> Option<nat> {
    let budget: nat = if available >= HOST_MEMORY_RESERVE { (available - HOST_MEMORY_RESERVE) as nat } else { 0 };
    if budget >= 512 * MIB as nat { Some(budget / GIB as nat) } else { None }
}

/// Decides the default vCPU count and memory of a new machine from the size
/// of the host.
pub struct ResourceAllocator {
    host_mem_bytes: usize,
    host_threads: u16,
}

impl ResourceAllocator {
    pub closed spec fn mem_bytes(&self) -> nat {
        self.host_mem_bytes as nat
    }

    pub closed spec fn threads(&self) -> nat {
        self.host_threads as nat
    }

    /// An allocator for a host with the given totals; `host_threads` counts
    /// logical processors.
    pub fn new(host_mem_bytes: usize, host_threads: u16) -> (r: ResourceAllocator)
        ensures
            r.mem_bytes() == host_mem_bytes,
            r.threads() == host_threads,
    {
        ResourceAllocator { host_mem_bytes, host_threads }
    }

    /// The size of a machine of the given level.
    fn resources_for_level(level: usize) -> (r: (u16, DataSize))
        requires
            level * GIB <= usize::MAX,
        ensures
            r.0 == level_resources(level as nat).0,
            r.1@ == level_resources(level as nat).1,
    {
        if level == 0 {
            (1, DataSize::new(512 * MIB))
        } else {
            #[verifier::truncate]
            let cpus = (level * 2) as u16;
            (cpus, DataSize::new(level * GIB))
        }
    }

    /// The default size of a new machine: the highest level the host
    /// allows, where a level needs `4 * (level + 1)` threads and as many GiB.
    pub fn get_default_resources(&self) -> (r: (u16, DataSize))
        ensures
            r.0 == level_resources(host_level(self.mem_bytes(), self.threads())).0,
            r.1@ == level_resources(host_level(self.mem_bytes(), self.threads())).1,
    {
        let by_threads = self.host_threads as u64 / 4;
        let by_memory = self.host_mem_bytes as u64 / (4 * GIB as u64);
        let m = if by_threads < by_memory { by_threads } else { by_memory };
        let level = if m >= 1 { m - 1 } else { 0 };
        assert(level * GIB <= usize::MAX) by (nonlinear_arith)
            requires
                level <= by_memory,
                by_memory == self.host_mem_bytes as int / 4294967296int,
                self.host_mem_bytes <= usize::MAX;
        Self::resources_for_level(level as usize)
    }

    /// The largest machine whose memory fits in `available_bytes` once the
    /// host reserve is held back, or `None` when not even 512 MiB remain.
    pub fn get_resources_for_budget(available_bytes: usize) -> (r: Option<(u16, DataSize)>)
        ensures
            r is None <==> budget_level(available_bytes as nat) is None,
            r matches Some(res) ==> res.0 == level_resources(budget_level(available_bytes as nat)->0).0
                && res.1@ == level_resources(budget_level(available_bytes as nat)->0).1,
    {
        let budget = available_bytes.saturating_sub(HOST_MEMORY_RESERVE);
        if budget >= 512 * MIB {
            let level = budget / GIB;
            assert(level * GIB <= budget) by (nonlinear_arith)
                requires level == budget / GIB;
            Some(Self::resources_for_level(level))
        } else {
            None
        }
    }
}

/// Each value raised to its floor, and one warning per raised value.
pub open spec fn minimums_enforced(
    old_cpus: u16, old_mem: nat, old_disk: nat,
    cpus: u16, mem: nat, disk: nat, warnings: nat,
) -> bool {
    &&& cpus == (if old_cpus < MIN_CPUS { MIN_CPUS } else { old_cpus })
    &&& mem == (if old_mem < MIN_MEMORY { MIN_MEMORY as nat } else { old_mem })
    &&& disk == (if old_disk < MIN_DISK { MIN_DISK as nat } else { old_disk })
    &&& warnings == (if old_cpus < MIN_CPUS { 1nat } else { 0 }) + (if old_mem < MIN_MEMORY { 1nat } else { 0 })
        + (if old_disk < MIN_DISK { 1nat } else { 0 })
}

/// The warning for a vCPU count raised to the floor.
pub open spec fn cpus_warning(old: u16) -> Seq<char> {
    "CPUs raised from "@ + decimal(old as nat) + " to 1 (minimum usable value)."@
}

/// The warning for a memory size raised to the floor.
pub open spec fn memory_warning(old: nat) -> Seq<char> {
    "Memory raised from "@ + size_text(old) + " to "@ + size_text(MIN_MEMORY as nat) + " (minimum usable value)."@
}

/// The warning for a disk size raised to the floor.
pub open spec fn disk_warning(old: nat) -> Seq<char> {
    "Disk raised from "@ + size_text(old) + " to "@ + size_text(MIN_DISK as nat) + " (minimum usable value)."@
}

/// The warnings `enforce_minimums` gives, in the order of the values.
pub open spec fn minimum_warnings(old_cpus: u16, old_mem: nat, old_disk: nat) -> Seq<Seq<char>> {
    (if old_cpus < MIN_CPUS { seq![cpus_warning(old_cpus)] } else { Seq::empty() })
        + (if old_mem < MIN_MEMORY { seq![memory_warning(old_mem)] } else { Seq::empty() })
        + (if old_disk < MIN_DISK { seq![disk_warning(old_disk)] } else { Seq::empty() })
}

/// The texts of a list of strings.
pub open spec fn texts(v: Seq<String>) -> Seq<Seq<char>> {
    Seq::new(v.len(), |i: int| v[i]@)
}

fn push_text(v: &mut Vec<String>, s: String)
    ensures
        texts(final(v)@) == texts(old(v)@).push(s@),
{
    v.push(s);
    assert(texts(v@) =~= texts(old(v)@).push(s@));
}

impl ResourceAllocator {
    /// Raises every value below its floor to the floor, and gives one
    /// warning for each value it raised.
    pub fn enforce_minimums(cpus: &mut u16, mem: &mut DataSize, disk: &mut DataSize) -> (r: Vec<String>)
        ensures
            minimums_enforced(*old(cpus), old(mem)@, old(disk)@, *final(cpus), final(mem)@, final(disk)@, r@.len()),
            texts(r@) == minimum_warnings(*old(cpus), old(mem)@, old(disk)@),
    {
        let mut warnings: Vec<String> = Vec::new();
        let ghost (c0, m0, d0) = (*cpus, mem@, disk@);
        assert(texts(warnings@) =~= Seq::<Seq<char>>::empty());
        if *cpus < MIN_CPUS {
            let mut w = String::from_str("CPUs raised from ");
            w.append(decimal_string(*cpus as u64).as_str());
            w.append(" to 1 (minimum usable value).");
            push_text(&mut warnings, w);
            *cpus = MIN_CPUS;
        }
        let ghost after_cpus = texts(warnings@);
        if mem.get_bytes() < MIN_MEMORY {
            let mut w = String::from_str("Memory raised from ");
            w.append(mem.to_size().as_str());
            w.append(" to ");
            w.append(DataSize::new(MIN_MEMORY).to_size().as_str());
            w.append(" (minimum usable value).");
            push_text(&mut warnings, w);
            *mem = DataSize::new(MIN_MEMORY);
        }
        let ghost after_mem = texts(warnings@);
        if disk.get_bytes() < MIN_DISK {
            let mut w = String::from_str("Disk raised from ");
            w.append(disk.to_size().as_str());
            w.append(" to ");
            w.append(DataSize::new(MIN_DISK).to_size().as_str());
            w.append(" (minimum usable value).");
            push_text(&mut warnings, w);
            *disk = DataSize::new(MIN_DISK);
        }
        proof {
            reveal_strlit("1");
            assert(texts(warnings@) =~= minimum_warnings(c0, m0, d0));
        }
        warnings
    }
}

/// Raising values to their floors a second time changes nothing and warns
/// about nothing.
pub proof fn lemma_enforce_minimums_idempotent(
    c0: u16, m0: nat, d0: nat, c1: u16, m1: nat, d1: nat, w1: nat, c2: u16, m2: nat, d2: nat, w2: nat,
)
    requires
        minimums_enforced(c0, m0, d0, c1, m1, d1, w1),
        minimums_enforced(c1, m1, d1, c2, m2, d2, w2),
    ensures
        c2 == c1 && m2 == m1 && d2 == d1,
        w2 == 0,
{
}

/// Every level keeps half a GiB of memory per vCPU, the fallback level
/// included, as long as the vCPU count fits its 16 bits.
pub proof fn lemma_half_gib_per_cpu(level: nat)
    requires
        level * 2 <= u16::MAX,
    ensures
        level_resources(level).1 * 2 == level_resources(level).0 * GIB,
{
    if level > 0 {
        assert((level * 2) as u16 == level * 2);
        assert(level * GIB * 2 == (level * 2) * GIB) by (nonlinear_arith);
    }
}

/// The default machine of a host large enough for level 1 stays under half
/// the host threads and under a quarter of the host memory, and its level
/// is the largest one the host allows: `4 * (level + 1)` threads and GiB are
/// there, `4 * (level + 2)` are not.
pub proof fn lemma_default_is_largest_and_conservative(host_mem_bytes: nat, host_threads: nat)
    requires
        host_level(host_mem_bytes, host_threads) >= 1,
        host_threads <= u16::MAX,
    ensures
        ({
            let level = host_level(host_mem_bytes, host_threads);
            let (cpus, mem) = level_resources(level);
            &&& 4 * (level + 1) <= host_threads && 4 * (level + 1) * GIB <= host_mem_bytes
            &&& !(4 * (level + 2) <= host_threads && 4 * (level + 2) * GIB <= host_mem_bytes)
            &&& cpus * 2 < host_threads
            &&& mem * 4 < host_mem_bytes
        }),
{
    let level = host_level(host_mem_bytes, host_threads);
    let by_threads = host_threads / 4;
    let by_memory = host_mem_bytes / (4 * GIB as nat);
    assert(level + 1 <= by_threads && level + 1 <= by_memory);
    assert(4 * (level + 1) * GIB <= host_mem_bytes) by (nonlinear_arith)
        requires level + 1 <= by_memory, by_memory == host_mem_bytes / (4 * GIB as nat);
    assert(!(4 * (level + 2) <= host_threads && 4 * (level + 2) * GIB <= host_mem_bytes)) by (nonlinear_arith)
        requires
            level + 1 == by_threads || level + 1 == by_memory,
            by_threads == host_threads / 4,
            by_memory == host_mem_bytes / (4 * GIB as nat);
    assert((level * 2) as u16 == level * 2);
    assert(level * GIB * 4 < 4 * (level + 1) * GIB) by (nonlinear_arith);
}

/// The level a budget allows is its whole GiB after the reserve: the
/// machine's memory fits the budget, and one more GiB would not.
pub proof fn lemma_budget_level_fits(available: nat)
    requires
        budget_level(available) is Some,
    ensures
        ({
            let level = budget_level(available)->0;
            let budget = available - HOST_MEMORY_RESERVE;
            &&& level_resources(level).1 <= budget
            &&& budget < (level + 1) * GIB
        }),
{
    let budget = (available - HOST_MEMORY_RESERVE) as nat;
    let level = budget / GIB as nat;
    assert(level * GIB <= budget && budget < (level + 1) * GIB) by (nonlinear_arith)
        requires level == budget / GIB as nat;
}

impl ResourceAllocator {
    /// An allocator for the totals the host reports: its memory and its
    /// logical processors.
    pub fn read_from_host<S: Host>(system: &S) -> (r: ResourceAllocator)
        ensures
            system.keeps_model() ==> r.mem_bytes() == (system.host_total_memory() as usize) as nat,
            system.keeps_model() ==> r.threads() == system.host_cpu_count(),
    {
        #[verifier::truncate]
        let mem = system.get_total_memory() as usize;
        Self::new(mem, system.get_cpu_count())
    }

    /// Whether the free space the host reported counts as low: known and
    /// under 5 GiB.
    pub fn disk_space_low(free: Option<u64>) -> (r: bool)
        ensures
            r == (free matches Some(f) && f < LOW_DISK_SPACE),
    {
        match free {
            Some(f) => f < LOW_DISK_SPACE,
            None => false,
        }
    }

    /// Whether the disk that holds the machines is low on space.
    pub fn is_disk_space_low<S: FileSystem>(system: &S, env: &Environment) -> (r: bool)
        ensures
            system.keeps_model() ==> r == (system.free_space(env.instance_dir()) matches Some(f) && f < LOW_DISK_SPACE),
    {
        Self::disk_space_low(system.get_available_space(env.get_instance_dir().as_str()))
    }
}

} // verus!
