use vstd::prelude::*;
use vstd::string::StringExecFns;
use crate::error::Error;
use crate::models::arch::Arch;
use crate::paths::{join_path, path_join};
use crate::platform::file_system_mock::{normalize, normalize_path, parent_of, parent_path};
use crate::platform::{FileSystem, Host, System};
use crate::qemu::qemu_path_builder::{path_entries, split_path_var};
use crate::util::string_views;

verus! {

/// Where distributions and installers put the OVMF firmware of x86_64
/// machines: Debian and Ubuntu, Fedora and RHEL, older Fedora, Arch Linux,
/// openSUSE, Homebrew on Apple Silicon, Intel and Linux, and the Windows
/// installer.
pub open spec fn ovmf_system_paths() -> Seq<Seq<char>> {
    seq![
        "/usr/share/OVMF/OVMF_CODE_4M.fd"@,
        "/usr/share/edk2/ovmf/OVMF_CODE.4m.fd"@,
        "/usr/share/edk2-ovmf/OVMF_CODE.fd"@,
        "/usr/share/edk2/x64/OVMF_CODE.4m.fd"@,
        "/usr/share/qemu/ovmf-x86_64-code.bin"@,
        "/opt/homebrew/share/qemu/edk2-x86_64-code.fd"@,
        "/usr/local/share/qemu/edk2-x86_64-code.fd"@,
        "/home/linuxbrew/.linuxbrew/share/qemu/edk2-x86_64-code.fd"@,
        "C:/Program Files/QEMU/share/edk2-x86_64-code.fd"@,
    ]
}

/// Where distributions and installers put the UEFI firmware of aarch64
/// machines, in the same order.
pub open spec fn arm_system_paths() -> Seq<Seq<char>> {
    seq![
        "/usr/share/AAVMF/AAVMF_CODE.fd"@,
        "/usr/share/edk2/aarch64/QEMU_EFI-pflash.raw"@,
        "/usr/share/edk2-armvirt/aarch64/QEMU_EFI.fd"@,
        "/usr/share/qemu/aavmf-aarch64-code.bin"@,
        "/opt/homebrew/share/qemu/edk2-aarch64-code.fd"@,
        "/usr/local/share/qemu/edk2-aarch64-code.fd"@,
        "/home/linuxbrew/.linuxbrew/share/qemu/edk2-aarch64-code.fd"@,
        "C:/Program Files/QEMU/share/edk2-aarch64-code.fd"@,
    ]
}

/// The firmware files to try for x86_64, in order: the one of the snap,
/// those next to the QEMU install, then the system ones.
pub open spec fn ovmf_candidates_of(snap: Option<Seq<char>>, share: Option<Seq<char>>) -> Seq<Seq<char>> {
    (match snap { Some(s) => seq![s + "/usr/share/OVMF/OVMF_CODE_4M.fd"@], None => Seq::empty() })
        + (match share {
            Some(d) => seq![join_path(d, "edk2-x86_64-code.fd"@), join_path(d, "OVMF_CODE_4M.fd"@)],
            None => Seq::empty(),
        })
        + ovmf_system_paths()
}

/// The firmware files to try for aarch64, in order.
pub open spec fn arm_candidates_of(snap: Option<Seq<char>>, share: Option<Seq<char>>) -> Seq<Seq<char>> {
    (match snap { Some(s) => seq![s + "/usr/share/AAVMF/AAVMF_CODE.fd"@], None => Seq::empty() })
        + (match share { Some(d) => seq![join_path(d, "edk2-aarch64-code.fd"@)], None => Seq::empty() })
        + arm_system_paths()
}

/// The error of an architecture whose firmware was not found.
pub open spec fn firmware_not_found(arch: Arch) -> Error {
    match arch {
        Arch::AMD64 => Error::OvmfNotFound,
        Arch::ARM64 => Error::ArmFirmwareNotFound,
    }
}

fn push_all(v: &mut Vec<String>, items: &[&str])
    ensures
        string_views(final(v)@) == string_views(old(v)@) + Seq::new(items@.len(), |i: int| items@[i]@),
{
    let mut i: usize = 0;
    while i < items.len()
        invariant
            0 <= i <= items@.len(),
            string_views(v@) == string_views(old(v)@) + Seq::new(i as nat, |k: int| items@[k]@),
        decreases items@.len() - i,
    {
        let ghost prev = v@;
        let item = items[i].to_string();
        v.push(item);
        assert(string_views(v@) =~= string_views(prev).push(items@[i as int]@));
        assert(string_views(v@) =~= string_views(old(v)@) + Seq::new(i as nat + 1, |k: int| items@[k]@));
        i = i + 1;
    }
}

/// Finds the UEFI firmware of an architecture.
pub struct FirmwareFinder {
    pub arch: Arch,
    pub snap: Option<String>,
}

/// The snap directory as optional text.
pub open spec fn snap_view(s: Option<String>) -> Option<Seq<char>> {
    match s {
        Some(d) => Some(d@),
        None => None,
    }
}

/// The optional text of an optional string slice.
pub open spec fn opt_str_view(s: Option<&str>) -> Option<Seq<char>> {
    match s {
        Some(d) => Some(d@),
        None => None,
    }
}

impl FirmwareFinder {
    pub fn new(arch: Arch, snap: Option<&str>) -> (r: FirmwareFinder)
        ensures
            r.arch == arch,
            snap_view(r.snap) == opt_str_view(snap),
    {
        FirmwareFinder { arch, snap: match snap { Some(s) => Some(s.to_string()), None => None } }
    }

    /// The firmware files to try, in order.
    pub fn candidates(&self, qemu_share: Option<&str>) -> (r: Vec<String>)
        ensures
            string_views(r@) == (match self.arch {
                Arch::AMD64 => ovmf_candidates_of(snap_view(self.snap), opt_str_view(qemu_share)),
                Arch::ARM64 => arm_candidates_of(snap_view(self.snap), opt_str_view(qemu_share)),
            }),
    {
        match self.arch {
            Arch::AMD64 => self.ovmf_candidates(qemu_share),
            Arch::ARM64 => self.arm_candidates(qemu_share),
        }
    }

    fn ovmf_candidates(&self, qemu_share: Option<&str>) -> (r: Vec<String>)
        ensures
            string_views(r@) == ovmf_candidates_of(snap_view(self.snap), opt_str_view(qemu_share)),
    {
        let mut candidates: Vec<String> = Vec::new();
        if let Some(snap_dir) = &self.snap {
            let mut p = snap_dir.clone();
            p.append("/usr/share/OVMF/OVMF_CODE_4M.fd");
            candidates.push(p);
        }
        let ghost after_snap = string_views(candidates@);
        if let Some(share) = qemu_share {
            candidates.push(path_join(share, "edk2-x86_64-code.fd"));
            candidates.push(path_join(share, "OVMF_CODE_4M.fd"));
        }
        let ghost after_share = string_views(candidates@);
        let system: [&str; 9] = [
            "/usr/share/OVMF/OVMF_CODE_4M.fd",
            "/usr/share/edk2/ovmf/OVMF_CODE.4m.fd",
            "/usr/share/edk2-ovmf/OVMF_CODE.fd",
            "/usr/share/edk2/x64/OVMF_CODE.4m.fd",
            "/usr/share/qemu/ovmf-x86_64-code.bin",
            "/opt/homebrew/share/qemu/edk2-x86_64-code.fd",
            "/usr/local/share/qemu/edk2-x86_64-code.fd",
            "/home/linuxbrew/.linuxbrew/share/qemu/edk2-x86_64-code.fd",
            "C:/Program Files/QEMU/share/edk2-x86_64-code.fd",
        ];
        push_all(&mut candidates, &system);
        proof {
            assert(Seq::new(system@.len(), |i: int| system@[i]@) =~= ovmf_system_paths());
            assert(string_views(candidates@) =~= ovmf_candidates_of(snap_view(self.snap), opt_str_view(qemu_share)));
        }
        candidates
    }

    fn arm_candidates(&self, qemu_share: Option<&str>) -> (r: Vec<String>)
        ensures
            string_views(r@) == arm_candidates_of(snap_view(self.snap), opt_str_view(qemu_share)),
    {
        let mut candidates: Vec<String> = Vec::new();
        if let Some(snap_dir) = &self.snap {
            let mut p = snap_dir.clone();
            p.append("/usr/share/AAVMF/AAVMF_CODE.fd");
            candidates.push(p);
        }
        if let Some(share) = qemu_share {
            candidates.push(path_join(share, "edk2-aarch64-code.fd"));
        }
        let system: [&str; 8] = [
            "/usr/share/AAVMF/AAVMF_CODE.fd",
            "/usr/share/edk2/aarch64/QEMU_EFI-pflash.raw",
            "/usr/share/edk2-armvirt/aarch64/QEMU_EFI.fd",
            "/usr/share/qemu/aavmf-aarch64-code.bin",
            "/opt/homebrew/share/qemu/edk2-aarch64-code.fd",
            "/usr/local/share/qemu/edk2-aarch64-code.fd",
            "/home/linuxbrew/.linuxbrew/share/qemu/edk2-aarch64-code.fd",
            "C:/Program Files/QEMU/share/edk2-aarch64-code.fd",
        ];
        push_all(&mut candidates, &system);
        proof {
            assert(Seq::new(system@.len(), |i: int| system@[i]@) =~= arm_system_paths());
            assert(string_views(candidates@) =~= arm_candidates_of(snap_view(self.snap), opt_str_view(qemu_share)));
        }
        candidates
    }

    /// The share directory of the QEMU install whose binary is on the
    /// `PATH`: two levels above the binary, then `share/qemu`.
    fn qemu_share_dir<S: System>(&self, system: &S) -> (r: Option<String>)
        ensures
            system.keeps_model() ==> opt_string_view(r) == share_dir_of(system, binary_of(self.arch)),
            r matches Some(s) ==> exists|root: Seq<char>| s@ == #[trigger] join_path(join_path(root, "share"@), "qemu"@),
    {
        let binary = match self.arch {
            Arch::AMD64 => "qemu-system-x86_64",
            Arch::ARM64 => "qemu-system-aarch64",
        };
        proof { reveal_strlit("qemu-system-x86_64"); reveal_strlit("qemu-system-aarch64"); }
        assert(binary@ == binary_of(self.arch));
        let found = match find_on_path(system, binary) {
            Some(p) => p,
            None => return None,
        };
        let bin = match parent_path(normalize_path(found.as_str()).as_str()) {
            Some(p) => p,
            None => return None,
        };
        let root = match parent_path(bin.as_str()) {
            Some(p) => p,
            None => return None,
        };
        let share = path_join(root.as_str(), "share");
        let dir = path_join(share.as_str(), "qemu");
        assert(dir@ == join_path(join_path(root@, "share"@), "qemu"@));
        Some(dir)
    }

    /// The firmware: the `CUBIC_FW` override as given, else the first
    /// candidate the host has.
    pub fn find<S: System>(&self, system: &S) -> (r: Result<String, Error>)
        ensures
            r is Err ==> r == Err::<String, Error>(firmware_not_found(self.arch)),
            system.keeps_model() ==> (system.env_value("CUBIC_FW"@) matches Some(v) ==> (r matches Ok(f) && f@ == v)),
            system.keeps_model() ==> (system.env_value("CUBIC_FW"@) is None ==> (match r {
                Ok(f) => Some(f@),
                Err(_) => None,
            }) == first_existing(system, self.candidates_of(share_dir_of(system, binary_of(self.arch))))),
    {
        if let Some(fw) = system.read_env_var("CUBIC_FW") {
            return Ok(fw);
        }
        let share = self.qemu_share_dir(system);
        let candidates = match &share {
            Some(s) => self.candidates(Some(s.as_str())),
            None => self.candidates(None),
        };
        let ghost cands = string_views(candidates@);
        assert(cands == self.candidates_of(opt_string_view(share)));
        assert(cands.skip(0) =~= cands);
        let mut i: usize = 0;
        while i < candidates.len()
            invariant
                0 <= i <= candidates@.len(),
                cands == string_views(candidates@),
                system.keeps_model() ==> first_existing(system, cands) == first_existing(system, cands.skip(i as int)),
                system.keeps_model() ==> system.env_value("CUBIC_FW"@) is None,
                system.keeps_model() ==> cands == self.candidates_of(share_dir_of(system, binary_of(self.arch))),
            decreases candidates@.len() - i,
        {
            proof { lemma_first_existing_step(system, cands, i as int); }
            if system.exists_path(candidates[i].as_str()) {
                let found = candidates[i].clone();
                assert(found@ == cands[i as int]);
                return Ok(found);
            }
            i = i + 1;
        }
        proof {
            assert(cands.skip(i as int) =~= Seq::<Seq<char>>::empty());
        }
        match self.arch {
            Arch::AMD64 => Err(Error::OvmfNotFound),
            Arch::ARM64 => Err(Error::ArmFirmwareNotFound),
        }
    }

    /// The firmware files to try for the architecture, given the share
    /// directory of the QEMU install.
    pub open spec fn candidates_of(&self, share: Option<Seq<char>>) -> Seq<Seq<char>> {
        match self.arch {
            Arch::AMD64 => ovmf_candidates_of(snap_view(self.snap), share),
            Arch::ARM64 => arm_candidates_of(snap_view(self.snap), share),
        }
    }
}

/// Optional text of an optional string.
pub open spec fn opt_string_view(s: Option<String>) -> Option<Seq<char>> {
    match s {
        Some(d) => Some(d@),
        None => None,
    }
}

/// The QEMU binary searched for an architecture.
pub open spec fn binary_of(arch: Arch) -> Seq<char> {
    match arch {
        Arch::AMD64 => "qemu-system-x86_64"@,
        Arch::ARM64 => "qemu-system-aarch64"@,
    }
}

/// The first of `paths` that the host has.
pub open spec fn first_existing<S: FileSystem>(system: &S, paths: Seq<Seq<char>>) -> Option<Seq<char>>
    decreases paths.len(),
{
    if paths.len() == 0 {
        None
    } else if system.path_exists(paths[0]) {
        Some(paths[0])
    } else {
        first_existing(system, paths.drop_first())
    }
}

/// Looking past a path the host does not have.
proof fn lemma_first_existing_step<S: FileSystem>(system: &S, paths: Seq<Seq<char>>, i: int)
    requires
        0 <= i < paths.len(),
    ensures
        first_existing(system, paths.skip(i)) == if system.path_exists(paths[i]) {
            Some(paths[i])
        } else {
            first_existing(system, paths.skip(i + 1))
        },
{
    assert(paths.skip(i).drop_first() =~= paths.skip(i + 1));
    assert(paths.skip(i)[0] == paths[i]);
}

/// The first directory of `dirs` in which the host has `binary`, joined
/// with it.
pub open spec fn first_in_dirs<S: FileSystem>(system: &S, dirs: Seq<Seq<char>>, binary: Seq<char>) -> Option<Seq<char>>
    decreases dirs.len(),
{
    if dirs.len() == 0 {
        None
    } else if system.path_exists(join_path(dirs[0], binary)) {
        Some(join_path(dirs[0], binary))
    } else {
        first_in_dirs(system, dirs.drop_first(), binary)
    }
}

/// Where the host has `binary` on its `PATH`: in the first entry that
/// holds it.
pub open spec fn on_path<S: Host + FileSystem>(system: &S, binary: Seq<char>) -> Option<Seq<char>> {
    match system.env_value("PATH"@) {
        None => None,
        Some(v) => first_in_dirs(system, path_entries(v), binary),
    }
}

/// The share directory of the install that holds `binary` on the `PATH`.
pub open spec fn share_dir_of<S: Host + FileSystem>(system: &S, binary: Seq<char>) -> Option<Seq<char>> {
    match on_path(system, binary) {
        None => None,
        Some(found) => match parent_of(normalize(found)) {
            None => None,
            Some(bin) => match parent_of(bin) {
                None => None,
                Some(root) => Some(join_path(join_path(root, "share"@), "qemu"@)),
            },
        },
    }
}

/// The path of `binary` in the first directory of the `PATH` that has it.
pub fn find_on_path<S: System>(system: &S, binary: &str) -> (r: Option<String>)
    ensures
        system.keeps_model() ==> opt_string_view(r) == on_path(system, binary@),
        r matches Some(p) ==> exists|dir: Seq<char>| p@ == #[trigger] join_path(dir, binary@),
{
    let path_var = match system.read_env_var("PATH") {
        Some(p) => p,
        None => return None,
    };
    let dirs = split_path_var(path_var.as_str());
    let ghost entries = path_entries(path_var@);
    assert(entries.skip(0) =~= entries);
    let mut i: usize = 0;
    while i < dirs.len()
        invariant
            0 <= i <= dirs@.len(),
            entries == string_views(dirs@),
            system.keeps_model() ==> on_path(system, binary@) == first_in_dirs(system, entries.skip(i as int), binary@),
        decreases dirs@.len() - i,
    {
        let candidate = path_join(dirs[i].as_str(), binary);
        assert(entries[i as int] == dirs@[i as int]@);
        assert(entries.skip(i as int).drop_first() =~= entries.skip(i as int + 1));
        assert(entries.skip(i as int)[0] == entries[i as int]);
        if system.exists_path(candidate.as_str()) {
            assert(candidate@ == join_path(dirs@[i as int]@, binary@));
            return Some(candidate);
        }
        i = i + 1;
    }
    assert(entries.skip(i as int) =~= Seq::<Seq<char>>::empty());
    None
}

} // verus!
