use vstd::prelude::*;
use vstd::string::{StrSliceExecFns, StringExecFns};
use crate::models::arch::Arch;
use crate::models::environment::{file_name, file_name_of};
use crate::paths::{join_path, path_join};
use crate::platform::file_system_mock::{normalize, normalize_path, parent_of, parent_path};
use crate::platform::{FileSystem, Host, System};
use crate::qemu::firmware::opt_string_view;
use crate::qemu::qemu_firmware_descriptor::{code_path, descriptor_fits, descriptor_parse, descriptor_view, is_described, lemma_view_fits, view_fits, DescriptorView, QemuFirmwareDescriptor};
use crate::qemu::qemu_path_builder::{find_in_dir, found_in_dir};
use crate::text::{compare_text, lemma_lex_sign_flips, lemma_lex_sign_transitive, lemma_lex_sign_zero, lex_sign, str_eq};
use crate::util::string_views;

verus! {

/// The variable that overrides the firmware of an architecture.
pub open spec fn override_var(arch: Arch) -> Seq<char> {
    match arch {
        Arch::AMD64 => "CUBIC_QEMU_FW_AMD64"@,
        Arch::ARM64 => "CUBIC_QEMU_FW_ARM64"@,
    }
}

/// Whether a file name ends in `.` and the extension `ext`, with at least
/// one character before the dot.
pub open spec fn has_extension_of(name: Seq<char>, ext: Seq<char>) -> bool {
    name.len() > ext.len() + 1 && name.skip(name.len() - ext.len()) == ext && name[name.len() - ext.len() - 1] == '.'
        && forall|i: int| name.len() - ext.len() <= i < name.len() ==> name[i] != '.'
}

/// Whether the file name of `path` has the extension `ext`.
pub fn path_has_extension(path: &str, ext: &str) -> (r: bool)
    ensures
        r == has_extension_of(file_name_of(path@), ext@),
{
    let name = file_name(path);
    let n = name.as_str().unicode_len();
    let m = ext.unicode_len();
    if n <= m || n - m <= 1 {
        return false;
    }
    let off = n - m;
    if name.as_str().get_char(off - 1) != '.' {
        return false;
    }
    let mut i: usize = 0;
    while i < m
        invariant
            n == name@.len(),
            m == ext@.len(),
            off == n - m,
            n > m + 1,
            name@ == file_name_of(path@),
            0 <= i <= m,
            forall|j: int| 0 <= j < i ==> name@[off + j] == ext@[j],
            forall|k: int| off <= k < off + i ==> name@[k] != '.',
        decreases m - i,
    {
        let c = name.as_str().get_char(off + i);
        if c != ext.get_char(i) || c == '.' {
            proof {
                if c != ext@[i as int] {
                    assert(name@.skip(off as int)[i as int] != ext@[i as int]);
                } else {
                    assert(name@[off + i] == '.');
                }
            }
            return false;
        }
        i = i + 1;
    }
    assert(name@.skip(off as int) =~= ext@);
    true
}

/// Finds the firmware QEMU's own descriptors point to.
pub struct QemuFirmware;

/// A QEMU install, known by the directory its `bin` lies in.
pub struct QemuInstall {
    pub prefix: String,
}

/// Descriptor paths by file name, names sorted with no name twice.
pub open spec fn sorted_unique(names: Seq<Seq<char>>) -> bool {
    forall|i: int, j: int| 0 <= i < j < names.len() ==> lex_sign(names[i], names[j]) < 0
}

/// The prefix of an install whose binary lies in `dir`, on a host of
/// operating system `os`: `dir` itself on Windows, else the directory above
/// it (empty for a one-component relative directory), or `dir` where it has
/// none.
pub open spec fn install_prefix(dir: Seq<char>, os: Seq<char>) -> Seq<char> {
    if os == "windows"@ {
        dir
    } else {
        match parent_of(normalize(dir)) {
            Some(p) => p,
            None => normalize(dir),
        }
    }
}

/// Whether `dir` is one of the places under `prefix` where QEMU modules may
/// lie: `lib/<triplet>/qemu` for a triplet that is the name of a directory
/// entry, `lib/qemu` or `lib64/qemu`.
pub open spec fn module_dir_candidate(prefix: Seq<char>, dir: Seq<char>) -> bool {
    ||| dir == join_path(prefix, "lib/qemu"@)
    ||| dir == join_path(prefix, "lib64/qemu"@)
    ||| exists|entry: Seq<char>| dir == join_path(join_path(join_path(prefix, "lib"@), #[trigger] file_name_of(entry)), "qemu"@)
}

/// Whether a directory of the host holds a QEMU system binary.
pub open spec fn holds_qemu<S: FileSystem + Host>(system: &S, dir: Seq<char>) -> bool {
    found_in_dir(system, dir, "qemu-system-x86_64"@) is Some || found_in_dir(system, dir, "qemu-system-aarch64"@) is Some
}

/// Whether `dirs[i]` is the first of `dirs` that holds a QEMU binary.
pub open spec fn first_qemu_dir<S: FileSystem + Host>(system: &S, dirs: Seq<Seq<char>>, i: int) -> bool {
    &&& 0 <= i < dirs.len()
    &&& holds_qemu(system, dirs[i])
    &&& forall|j: int| 0 <= j < i ==> !holds_qemu(system, #[trigger] dirs[j])
}

/// Only one directory is the first that holds a QEMU binary.
proof fn lemma_first_qemu_dir_unique<S: FileSystem + Host>(system: &S, dirs: Seq<Seq<char>>, i: int, j: int)
    requires
        first_qemu_dir(system, dirs, i),
        first_qemu_dir(system, dirs, j),
    ensures
        i == j,
{
    if i < j {
        assert(!holds_qemu(system, dirs[i]));
    } else if j < i {
        assert(!holds_qemu(system, dirs[j]));
    }
}

impl QemuFirmware {
    /// The variable that overrides the firmware of an architecture.
    pub fn override_var_name(arch: Arch) -> (r: String)
        ensures
            r@ == override_var(arch),
    {
        let mut var = String::from_str("CUBIC_QEMU_FW_");
        var.append(match arch {
            Arch::AMD64 => "AMD64",
            Arch::ARM64 => "ARM64",
        });
        proof {
            reveal_strlit("CUBIC_QEMU_FW_"); reveal_strlit("AMD64"); reveal_strlit("ARM64");
            reveal_strlit("CUBIC_QEMU_FW_AMD64"); reveal_strlit("CUBIC_QEMU_FW_ARM64");
        }
        assert(var@ =~= override_var(arch));
        var
    }

    /// The firmware: the override variable of the architecture, taken as
    /// it is, else the first fitting firmware that QEMU's descriptors of
    /// the install found in `dirs` point to and that the host has.
    pub fn locate<S: System>(system: &S, dirs: &Vec<String>, arch: Arch) -> (r: Option<String>)
        ensures
            system.keeps_model() ==> (system.env_value(override_var(arch)) matches Some(v) ==> (r matches Some(f) && f@ == v)),
            system.keeps_model() ==> (system.env_value(override_var(arch)) is None
                && (forall|i: int| 0 <= i < dirs@.len() ==> !holds_qemu(system, #[trigger] string_views(dirs@)[i]))
                ==> r is None),
            system.keeps_model() ==> (system.env_value(override_var(arch)) is None && r is Some ==> exists|i: int, d: QemuFirmwareDescriptor|
                first_qemu_dir(system, string_views(dirs@), i) && descriptor_fits(d, arch)
                && r->0@ == #[trigger] code_path(d.mapping.executable.filename@, install_prefix(string_views(dirs@)[i], system.host_os()))),
            system.keeps_model() ==> system.env_value(override_var(arch)) is None ==> forall|i: int|
                #[trigger] first_qemu_dir(system, string_views(dirs@), i) ==> exists|descs: Seq<DescriptorView>|
                    collected(system, install_prefix(string_views(dirs@)[i], system.host_os()), descs)
                    && opt_string_view(r) == first_fit(system, descs, arch, install_prefix(string_views(dirs@)[i], system.host_os())),
    {
        let var = Self::override_var_name(arch);
        if let Some(fw) = system.read_env_var(var.as_str()) {
            return Some(fw);
        }
        match QemuInstall::find(system, dirs) {
            Some(install) => {
                let r = install.find_firmware(system, arch);
                proof {
                    if r is Some && system.keeps_model() {
                        let i = choose|i: int| first_qemu_dir(system, string_views(dirs@), i)
                            && install.prefix@ == install_prefix(#[trigger] string_views(dirs@)[i], system.host_os());
                        let d = choose|d: QemuFirmwareDescriptor| descriptor_fits(d, arch)
                            && r->0@ == code_path(#[trigger] d.mapping.executable.filename@, install.prefix@);
                        assert(r->0@ == code_path(d.mapping.executable.filename@, install_prefix(string_views(dirs@)[i], system.host_os())));
                    }
                    if system.keeps_model() {
                        let i0 = choose|i: int| first_qemu_dir(system, string_views(dirs@), i)
                            && install.prefix@ == install_prefix(#[trigger] string_views(dirs@)[i], system.host_os());
                        assert forall|i: int| #[trigger] first_qemu_dir(system, string_views(dirs@), i) implies exists|descs: Seq<DescriptorView>|
                            collected(system, install_prefix(string_views(dirs@)[i], system.host_os()), descs)
                            && opt_string_view(r) == first_fit(system, descs, arch, install_prefix(string_views(dirs@)[i], system.host_os())) by {
                            lemma_first_qemu_dir_unique(system, string_views(dirs@), i, i0);
                        }
                    }
                }
                r
            },
            None => None,
        }
    }
}

impl QemuInstall {
    /// The install whose binary lies in the first directory of `dirs` that
    /// has one: the directory above that `bin`.
    pub fn find<S: FileSystem + Host>(system: &S, dirs: &Vec<String>) -> (r: Option<QemuInstall>)
        ensures
            system.keeps_model() ==> (r is None <==> forall|i: int| 0 <= i < dirs@.len()
                ==> !holds_qemu(system, #[trigger] string_views(dirs@)[i])),
            system.keeps_model() ==> (r matches Some(install) ==> exists|i: int| first_qemu_dir(system, string_views(dirs@), i)
                && install.prefix@ == install_prefix(#[trigger] string_views(dirs@)[i], system.host_os())),
            r matches Some(install) ==> exists|i: int, os: Seq<char>| 0 <= i < dirs@.len()
                && install.prefix@ == #[trigger] install_prefix(string_views(dirs@)[i], os),
    {
        let ghost dv = string_views(dirs@);
        let mut i: usize = 0;
        while i < dirs.len()
            invariant
                0 <= i <= dirs@.len(),
                dv == string_views(dirs@),
                system.keeps_model() ==> forall|j: int| 0 <= j < i ==> !holds_qemu(system, #[trigger] dv[j]),
            decreases dirs@.len() - i,
        {
            let dir = dirs[i].as_str();
            assert(dv[i as int] == dir@);
            if find_in_dir(system, dir, "qemu-system-x86_64").is_some()
                || find_in_dir(system, dir, "qemu-system-aarch64").is_some() {
                let os = system.get_os();
                proof { reveal_strlit("windows"); }
                let prefix = if str_eq(os.as_str(), "windows") {
                    dir.to_string()
                } else {
                    let normalized = normalize_path(dir);
                    match parent_path(normalized.as_str()) {
                        Some(p) => p,
                        None => normalized,
                    }
                };
                assert(prefix@ == install_prefix(dv[i as int], os@));
                assert(system.keeps_model() ==> first_qemu_dir(system, dv, i as int)
                    && prefix@ == install_prefix(dirs@[i as int]@, system.host_os()));
                return Some(QemuInstall { prefix });
            }
            i = i + 1;
        }
        None
    }

    pub fn get_prefix(&self) -> (r: &str)
        ensures
            r@ == self.prefix@,
    {
        self.prefix.as_str()
    }

    /// The first module directory candidate that holds a shared object.
    pub fn find_module_dir<S: FileSystem>(&self, system: &S) -> (r: Option<String>)
        ensures
            r matches Some(d) ==> module_dir_candidate(self.prefix@, d@),
    {
        let candidates = self.build_module_dir_candidates(system);
        let mut i: usize = 0;
        while i < candidates.len()
            invariant
                0 <= i <= candidates@.len(),
                forall|k: int| 0 <= k < candidates@.len() ==> module_dir_candidate(self.prefix@, #[trigger] candidates@[k]@),
            decreases candidates@.len() - i,
        {
            if Self::contains_shared_object(system, candidates[i].as_str()) {
                return Some(candidates[i].clone());
            }
            i = i + 1;
        }
        None
    }

    /// The data directory, `share/qemu` under the prefix, if the host has it.
    pub fn find_datadir<S: FileSystem>(&self, system: &S) -> (r: Option<String>)
        ensures
            r matches Some(d) ==> d@ == join_path(self.prefix@, "share/qemu"@),
            system.keeps_model() ==> (r is Some <==> system.dir_exists(join_path(self.prefix@, "share/qemu"@))),
    {
        let dir = path_join(self.prefix.as_str(), "share/qemu");
        if system.exists_dir(dir.as_str()) {
            Some(dir)
        } else {
            None
        }
    }

    /// Where QEMU modules may lie: under the multiarch triplet of `lib`
    /// when there is one, then `lib/qemu` and `lib64/qemu`.
    pub fn build_module_dir_candidates<S: FileSystem>(&self, system: &S) -> (r: Vec<String>)
        ensures
            r@.len() >= 2,
            r@[r@.len() - 2]@ == join_path(self.prefix@, "lib/qemu"@),
            r@[r@.len() - 1]@ == join_path(self.prefix@, "lib64/qemu"@),
            r@.len() <= 3,
            forall|k: int| 0 <= k < r@.len() ==> module_dir_candidate(self.prefix@, #[trigger] r@[k]@),
    {
        let mut candidates: Vec<String> = Vec::new();
        if let Some(triplet) = self.find_lib_triplet(system) {
            let lib = path_join(self.prefix.as_str(), "lib");
            let dir = path_join(lib.as_str(), triplet.as_str());
            let qemu = path_join(dir.as_str(), "qemu");
            proof {
                let entry = choose|e: Seq<char>| triplet@ == file_name_of(e);
                assert(qemu@ == join_path(join_path(join_path(self.prefix@, "lib"@), file_name_of(entry)), "qemu"@));
            }
            candidates.push(qemu);
        }
        candidates.push(path_join(self.prefix.as_str(), "lib/qemu"));
        candidates.push(path_join(self.prefix.as_str(), "lib64/qemu"));
        candidates
    }

    /// The name of the first directory in `lib` that holds a `qemu`
    /// directory.
    fn find_lib_triplet<S: FileSystem>(&self, system: &S) -> (r: Option<String>)
        ensures
            r matches Some(t) ==> exists|entry: Seq<char>| t@ == #[trigger] file_name_of(entry),
            system.keeps_model() ==> (system.listing_fails(join_path(self.prefix@, "lib"@)) ==> r is None),
            system.keeps_model() ==> !system.listing_fails(join_path(self.prefix@, "lib"@)) ==> exists|listing: Seq<Seq<char>>|
                #[trigger] system.lists(join_path(self.prefix@, "lib"@), listing)
                && (r is None <==> forall|k: int| 0 <= k < listing.len()
                    ==> !system.dir_exists(join_path(#[trigger] listing[k], "qemu"@)))
                && (r matches Some(t) ==> exists|k: int| 0 <= k < listing.len()
                    && system.dir_exists(join_path(listing[k], "qemu"@)) && t@ == #[trigger] file_name_of(listing[k])
                    && forall|j: int| 0 <= j < k ==> !system.dir_exists(join_path(#[trigger] listing[j], "qemu"@))),
    {
        let lib = path_join(self.prefix.as_str(), "lib");
        let entries = match system.read_dir(lib.as_str()) {
            Ok(e) => e,
            Err(_) => return None,
        };
        let ghost listing = string_views(entries@);
        let mut i: usize = 0;
        while i < entries.len()
            invariant
                0 <= i <= entries@.len(),
                listing == string_views(entries@),
                lib@ == join_path(self.prefix@, "lib"@),
                system.keeps_model() ==> system.lists(lib@, listing),
                system.keeps_model() ==> !system.listing_fails(lib@),
                system.keeps_model() ==> forall|k: int| 0 <= k < i ==> !system.dir_exists(join_path(#[trigger] listing[k], "qemu"@)),
            decreases entries@.len() - i,
        {
            assert(listing[i as int] == entries@[i as int]@);
            let qemu = path_join(entries[i].as_str(), "qemu");
            if system.exists_dir(qemu.as_str()) {
                let name = file_name(entries[i].as_str());
                assert(name@ == file_name_of(entries@[i as int]@));
                assert(system.keeps_model() ==> system.dir_exists(join_path(listing[i as int], "qemu"@)));
                return Some(name);
            }
            i = i + 1;
        }
        None
    }

    /// Whether a directory holds a file with the extension `so`.
    fn contains_shared_object<S: FileSystem>(system: &S, dir: &str) -> (r: bool)
        ensures
            system.keeps_model() ==> (system.listing_fails(dir@) ==> !r),
            system.keeps_model() ==> !system.listing_fails(dir@) ==> exists|listing: Seq<Seq<char>>| #[trigger] system.lists(dir@, listing)
                && (r <==> exists|k: int| 0 <= k < listing.len() && has_extension_of(file_name_of(#[trigger] listing[k]), "so"@)),
    {
        let entries = match system.read_dir(dir) {
            Ok(e) => e,
            Err(_) => return false,
        };
        let ghost listing = string_views(entries@);
        let mut i: usize = 0;
        while i < entries.len()
            invariant
                0 <= i <= entries@.len(),
                listing == string_views(entries@),
                system.keeps_model() ==> system.lists(dir@, listing),
                system.keeps_model() ==> !system.listing_fails(dir@),
                forall|k: int| 0 <= k < i ==> !has_extension_of(file_name_of(#[trigger] listing[k]), "so"@),
            decreases entries@.len() - i,
        {
            assert(listing[i as int] == entries@[i as int]@);
            if path_has_extension(entries[i].as_str(), "so") {
                return true;
            }
            i = i + 1;
        }
        false
    }

    /// The first descriptor that fits the architecture and whose code the
    /// host has, mapped under the prefix.
    pub fn find_firmware<S: System>(&self, system: &S, arch: Arch) -> (r: Option<String>)
        ensures
            r matches Some(code) ==> exists|d: QemuFirmwareDescriptor| descriptor_fits(d, arch)
                && code@ == code_path(#[trigger] d.mapping.executable.filename@, self.prefix@),
            system.keeps_model() ==> exists|descs: Seq<DescriptorView>| #[trigger] collected(system, self.prefix@, descs)
                && opt_string_view(r) == first_fit(system, descs, arch, self.prefix@),
    {
        let descriptors = self.collect_descriptors(system);
        let ghost views = views_of(descriptors@);
        assert(views.skip(0) =~= views);
        let mut i: usize = 0;
        while i < descriptors.len()
            invariant
                0 <= i <= descriptors@.len(),
                views == views_of(descriptors@),
                system.keeps_model() ==> first_fit(system, views, arch, self.prefix@) == first_fit(system, views.skip(i as int), arch, self.prefix@),
                system.keeps_model() ==> collected(system, self.prefix@, views),
            decreases descriptors@.len() - i,
        {
            proof {
                lemma_view_fits(descriptors@[i as int], arch);
                assert(views.skip(i as int).drop_first() =~= views.skip(i as int + 1));
                assert(views.skip(i as int)[0] == descriptor_view(descriptors@[i as int]));
            }
            if descriptors[i].matches(arch) {
                let code = descriptors[i].build_code_path(self.prefix.as_str());
                if system.exists_path(code.as_str()) {
                    return Some(code);
                }
            }
            i = i + 1;
        }
        assert(views.skip(i as int) =~= Seq::<DescriptorView>::empty());
        None
    }

    /// The descriptors of the install, one per file name, the first
    /// directory that has a name winning, in the order of their names.
    fn collect_descriptors<S: System>(&self, system: &S) -> (r: Vec<QemuFirmwareDescriptor>)
        ensures
            forall|k: int| 0 <= k < r@.len() ==> is_described(#[trigger] descriptor_view(r@[k])),
            system.keeps_model() ==> collected(system, self.prefix@, views_of(r@)),
    {
        let dirs = self.build_descriptor_dirs(system);
        let ghost dirs_view = string_views(dirs@);
        let mut paths: Vec<String> = Vec::new();
        let ghost mut ls: Seq<Seq<Seq<char>>> = Seq::empty();
        assert(string_views(paths@) =~= json_paths(ls));
        let mut d: usize = 0;
        while d < dirs.len()
            invariant
                0 <= d <= dirs@.len(),
                dirs_view == string_views(dirs@),
                ls.len() == d,
                string_views(paths@) == json_paths(ls),
                system.keeps_model() ==> forall|k: int| 0 <= k < d ==> listing_or_none(system, dirs_view[k], #[trigger] ls[k]),
            decreases dirs@.len() - d,
        {
            let files = Self::find_json_files(system, dirs[d].as_str());
            assert(dirs_view[d as int] == dirs@[d as int]@);
            let ghost l = choose|l: Seq<Seq<char>>| listing_or_none(system, dirs@[d as int]@, l)
                && string_views(files@) == json_only(l);
            let ghost start = string_views(paths@);
            let mut f: usize = 0;
            while f < files.len()
                invariant
                    0 <= f <= files@.len(),
                    string_views(paths@) == start + string_views(files@).take(f as int),
                decreases files@.len() - f,
            {
                let ghost prev = paths@;
                paths.push(files[f].clone());
                assert(string_views(paths@) =~= string_views(prev).push(files@[f as int]@));
                assert(string_views(files@).take(f as int + 1) =~= string_views(files@).take(f as int).push(files@[f as int]@));
                f = f + 1;
            }
            assert(string_views(files@).take(f as int) =~= string_views(files@));
            proof {
                let lf = if system.keeps_model() { l } else { choose|x: Seq<Seq<char>>| string_views(files@) == json_only(x) };
                let old_ls = ls;
                ls = ls.push(lf);
                assert(ls.drop_last() =~= old_ls);
                assert forall|k: int| 0 <= k < d + 1 implies (system.keeps_model() ==> listing_or_none(system, dirs_view[k], #[trigger] ls[k])) by {
                    if k < d {
                        assert(ls[k] == old_ls[k]);
                    }
                }
            }
            d = d + 1;
        }
        let by_name = first_by_name(&paths);
        let mut descriptors: Vec<QemuFirmwareDescriptor> = Vec::new();
        assert(by_name@.take(0) =~= Seq::<(String, String)>::empty());
        assert(views_of(descriptors@) =~= Seq::<DescriptorView>::empty());
        let mut k: usize = 0;
        while k < by_name.len()
            invariant
                0 <= k <= by_name@.len(),
                forall|m: int| 0 <= m < descriptors@.len() ==> is_described(#[trigger] descriptor_view(descriptors@[m])),
                system.keeps_model() ==> views_of(descriptors@) == parsed(system, by_name@.take(k as int)),
            decreases by_name@.len() - k,
        {
            let ghost before = descriptors@;
            proof {
                assert(by_name@.take(k as int + 1).drop_last() =~= by_name@.take(k as int));
                assert(by_name@.take(k as int + 1).last() == by_name@[k as int]);
            }
            if let Ok(text) = system.read_file_to_string(by_name[k].1.as_str()) {
                if let Some(descriptor) = QemuFirmwareDescriptor::parse(text.as_str()) {
                    proof { assert(descriptor_parse(text@) == Some(descriptor_view(descriptor))); }
                    descriptors.push(descriptor);
                    proof {
                        assert(views_of(descriptors@) =~= views_of(before).push(descriptor_view(descriptor)));
                        assert forall|m: int| 0 <= m < descriptors@.len() implies is_described(#[trigger] descriptor_view(descriptors@[m])) by {
                            if m < before.len() {
                                assert(descriptors@[m] == before[m]);
                            } else {
                                assert(descriptor_parse(text@) == Some(descriptor_view(descriptors@[m])));
                            }
                        }
                    }
                }
            }
            k = k + 1;
        }
        assert(by_name@.take(k as int) =~= by_name@);
        proof {
            if system.keeps_model() {
                assert(listings_of(system, descriptor_dirs_of(system, self.prefix@), ls));
                assert(picks(json_paths(ls), by_name@));
            }
        }
        descriptors
    }

    /// Where QEMU firmware descriptors lie, in order of precedence: the
    /// user's config (`XDG_CONFIG_HOME`, else `HOME/.config`), the system's,
    /// then those of the install.
    pub fn build_descriptor_dirs<S: Host>(&self, system: &S) -> (r: Vec<String>)
        ensures
            r@.len() >= 4,
            r@[r@.len() - 4]@ == "/etc/qemu/firmware"@,
            r@[r@.len() - 3]@ == join_path(self.prefix@, "share/qemu/firmware"@),
            r@[r@.len() - 2]@ == join_path(self.prefix@, "share/firmware"@),
            r@[r@.len() - 1]@ == join_path(self.prefix@, "firmware"@),
            system.keeps_model() ==> string_views(r@) == descriptor_dirs_of(system, self.prefix@),
            system.keeps_model() ==> (system.env_value("XDG_CONFIG_HOME"@) matches Some(c) ==> r@.len() == 5 && r@[0]@ == join_path(c, "qemu/firmware"@)),
            system.keeps_model() ==> system.env_value("XDG_CONFIG_HOME"@) is None ==> match system.env_value("HOME"@) {
                Some(h) => r@.len() == 5 && r@[0]@ == join_path(h, ".config/qemu/firmware"@),
                None => r@.len() == 4,
            },
    {
        let mut dirs: Vec<String> = Vec::new();
        if let Some(config) = system.read_env_var("XDG_CONFIG_HOME") {
            dirs.push(path_join(config.as_str(), "qemu/firmware"));
        } else if let Some(home) = system.read_env_var("HOME") {
            dirs.push(path_join(home.as_str(), ".config/qemu/firmware"));
        }
        dirs.push(String::from_str("/etc/qemu/firmware"));
        dirs.push(path_join(self.prefix.as_str(), "share/qemu/firmware"));
        dirs.push(path_join(self.prefix.as_str(), "share/firmware"));
        dirs.push(path_join(self.prefix.as_str(), "firmware"));
        proof { reveal_strlit("/etc/qemu/firmware"); }
        assert(system.keeps_model() ==> string_views(dirs@) =~= descriptor_dirs_of(system, self.prefix@));
        dirs
    }

    /// The files of a directory with the extension `json`.
    fn find_json_files<S: FileSystem>(system: &S, dir: &str) -> (r: Vec<String>)
        ensures
            forall|i: int| 0 <= i < r@.len() ==> has_extension_of(file_name_of(#[trigger] r@[i]@), "json"@),
            system.keeps_model() ==> exists|l: Seq<Seq<char>>| listing_or_none(system, dir@, l)
                && string_views(r@) == #[trigger] json_only(l),
            exists|l: Seq<Seq<char>>| string_views(r@) == #[trigger] json_only(l),
    {
        let entries = match system.read_dir(dir) {
            Ok(e) => e,
            Err(_) => {
                let none: Vec<String> = Vec::new();
                assert(string_views(none@) =~= json_only(Seq::empty()));
                return none;
            },
        };
        let ghost listing = string_views(entries@);
        let mut found: Vec<String> = Vec::new();
        assert(string_views(found@) =~= json_only(listing.take(0)));
        let mut i: usize = 0;
        while i < entries.len()
            invariant
                0 <= i <= entries@.len(),
                listing == string_views(entries@),
                forall|k: int| 0 <= k < found@.len() ==> has_extension_of(file_name_of(#[trigger] found@[k]@), "json"@),
                string_views(found@) == json_only(listing.take(i as int)),
            decreases entries@.len() - i,
        {
            proof {
                assert(listing.take(i as int + 1).drop_last() =~= listing.take(i as int));
                assert(listing.take(i as int + 1).last() == entries@[i as int]@);
            }
            if path_has_extension(entries[i].as_str(), "json") {
                let ghost prev = found@;
                found.push(entries[i].clone());
                assert(string_views(found@) =~= string_views(prev).push(entries@[i as int]@));
            }
            i = i + 1;
        }
        assert(listing.take(i as int) =~= listing);
        found
    }
}

/// The paths of a listing whose file name has the extension `json`, in
/// listing order.
pub open spec fn json_only(l: Seq<Seq<char>>) -> Seq<Seq<char>>
    decreases l.len(),
{
    if l.len() == 0 {
        Seq::empty()
    } else if has_extension_of(file_name_of(l.last()), "json"@) {
        json_only(l.drop_last()).push(l.last())
    } else {
        json_only(l.drop_last())
    }
}

/// Whether `l` is what listing `dir` gives: a listing the host may give,
/// or nothing where listing fails.
pub open spec fn listing_or_none<S: FileSystem>(system: &S, dir: Seq<char>, l: Seq<Seq<char>>) -> bool {
    if system.listing_fails(dir) { l.len() == 0 } else { system.lists(dir, l) }
}

/// Whether `ls` holds, directory by directory, what listing `dirs` gives.
pub open spec fn listings_of<S: FileSystem>(system: &S, dirs: Seq<Seq<char>>, ls: Seq<Seq<Seq<char>>>) -> bool {
    &&& ls.len() == dirs.len()
    &&& forall|k: int| 0 <= k < dirs.len() ==> listing_or_none(system, dirs[k], #[trigger] ls[k])
}

/// The JSON files of listings, directory after directory.
pub open spec fn json_paths(ls: Seq<Seq<Seq<char>>>) -> Seq<Seq<char>>
    decreases ls.len(),
{
    if ls.len() == 0 { Seq::empty() } else { json_paths(ls.drop_last()) + json_only(ls.last()) }
}

/// Whether `pairs` is what `first_by_name` picks of `paths`: each name
/// once, sorted, with the first path of that name, every name present.
pub open spec fn picks(paths: Seq<Seq<char>>, pairs: Seq<(String, String)>) -> bool {
    &&& sorted_unique(names_of(pairs))
    &&& forall|k: int| 0 <= k < pairs.len() ==> #[trigger] first_with_name(paths, pairs[k].0@, pairs[k].1@)
    &&& forall|i: int| 0 <= i < paths.len() ==> names_of(pairs).contains(file_name_of(#[trigger] paths[i]))
}

/// The descriptors the files of `pairs` hold, in order: a file that cannot
/// be read as text or holds no descriptor adds none.
pub open spec fn parsed<S: FileSystem>(system: &S, pairs: Seq<(String, String)>) -> Seq<DescriptorView>
    decreases pairs.len(),
{
    if pairs.len() == 0 {
        Seq::empty()
    } else {
        parsed(system, pairs.drop_last()) + match system.file_text(pairs.last().1@) {
            Some(t) => match descriptor_parse(t) {
                Some(d) => seq![d],
                None => Seq::empty(),
            },
            None => Seq::empty(),
        }
    }
}

/// Where the descriptors of an install under `prefix` lie on a host.
pub open spec fn descriptor_dirs_of<S: Host>(system: &S, prefix: Seq<char>) -> Seq<Seq<char>> {
    (match system.env_value("XDG_CONFIG_HOME"@) {
        Some(c) => seq![join_path(c, "qemu/firmware"@)],
        None => match system.env_value("HOME"@) {
            Some(h) => seq![join_path(h, ".config/qemu/firmware"@)],
            None => Seq::empty(),
        },
    }) + seq!["/etc/qemu/firmware"@, join_path(prefix, "share/qemu/firmware"@), join_path(prefix, "share/firmware"@),
        join_path(prefix, "firmware"@)]
}

/// Whether `descs` are the descriptors an install under `prefix` collects
/// on a host: the JSON files of its descriptor directories, one per file
/// name with the first directory winning, in the order of their names,
/// each read and parsed.
pub open spec fn collected<S: System>(system: &S, prefix: Seq<char>, descs: Seq<DescriptorView>) -> bool {
    exists|ls: Seq<Seq<Seq<char>>>, pairs: Seq<(String, String)>|
        listings_of(system, descriptor_dirs_of(system, prefix), ls) && #[trigger] picks(json_paths(ls), pairs)
            && descs == parsed(system, pairs)
}

/// The code path of the first descriptor that fits the architecture and
/// whose code the host has.
pub open spec fn first_fit<S: FileSystem>(system: &S, descs: Seq<DescriptorView>, arch: Arch, prefix: Seq<char>) -> Option<Seq<char>>
    decreases descs.len(),
{
    if descs.len() == 0 {
        None
    } else if view_fits(descs[0], arch) && system.path_exists(code_path(descs[0].filename, prefix)) {
        Some(code_path(descs[0].filename, prefix))
    } else {
        first_fit(system, descs.drop_first(), arch, prefix)
    }
}

/// The values of descriptors.
pub open spec fn views_of(ds: Seq<QemuFirmwareDescriptor>) -> Seq<DescriptorView> {
    Seq::new(ds.len(), |i: int| descriptor_view(ds[i]))
}

/// The names of a list of (name, path) pairs.
pub open spec fn names_of(pairs: Seq<(String, String)>) -> Seq<Seq<char>> {
    Seq::new(pairs.len(), |i: int| pairs[i].0@)
}

/// Whether `path` is the first of `paths` whose file name is `name`.
pub open spec fn first_with_name(paths: Seq<Seq<char>>, name: Seq<char>, path: Seq<char>) -> bool {
    exists|i: int| 0 <= i < paths.len() && paths[i] == path && file_name_of(paths[i]) == name
        && forall|j: int| 0 <= j < i ==> file_name_of(#[trigger] paths[j]) != name
}

/// The paths by file name, the first path of each name kept, sorted by
/// name: what a map from name to path filled in order gives when walked.
pub fn first_by_name(paths: &Vec<String>) -> (r: Vec<(String, String)>)
    ensures
        sorted_unique(names_of(r@)),
        forall|k: int| 0 <= k < r@.len() ==> #[trigger] first_with_name(string_views(paths@), r@[k].0@, r@[k].1@),
        forall|i: int| 0 <= i < paths@.len() ==> names_of(r@).contains(file_name_of(#[trigger] paths@[i]@)),
{
    let mut out: Vec<(String, String)> = Vec::new();
    let mut i: usize = 0;
    while i < paths.len()
        invariant
            0 <= i <= paths@.len(),
            sorted_unique(names_of(out@)),
            forall|k: int| 0 <= k < out@.len() ==> #[trigger] first_with_name(string_views(paths@).take(i as int), out@[k].0@, out@[k].1@),
            forall|m: int| 0 <= m < i ==> names_of(out@).contains(file_name_of(#[trigger] paths@[m]@)),
        decreases paths@.len() - i,
    {
        let name = file_name(paths[i].as_str());
        let ghost pv = string_views(paths@);
        proof {
            assert(pv.take(i as int + 1).drop_last() =~= pv.take(i as int));
            assert forall|k: int| 0 <= k < out@.len() implies #[trigger] first_with_name(pv.take(i as int + 1), out@[k].0@, out@[k].1@) by {
                assert(first_with_name(pv.take(i as int), out@[k].0@, out@[k].1@));
                let w = choose|w: int| 0 <= w < pv.take(i as int).len() && pv.take(i as int)[w] == out@[k].1@
                    && file_name_of(pv.take(i as int)[w]) == out@[k].0@
                    && forall|j: int| 0 <= j < w ==> file_name_of(#[trigger] pv.take(i as int)[j]) != out@[k].0@;
                assert(pv.take(i as int + 1)[w] == pv.take(i as int)[w]);
                assert forall|j: int| 0 <= j < w implies file_name_of(#[trigger] pv.take(i as int + 1)[j]) != out@[k].0@ by {
                    assert(pv.take(i as int + 1)[j] == pv.take(i as int)[j]);
                }
            }
        }
        // Find the insertion point: the first name not before `name`.
        let mut p: usize = 0;
        while p < out.len() && compare_text(out[p].0.as_str(), name.as_str()) < 0
            invariant
                0 <= p <= out@.len(),
                forall|k: int| 0 <= k < p ==> lex_sign(out@[k].0@, name@) < 0,
            decreases out@.len() - p,
        {
            p = p + 1;
        }
        if p < out.len() && compare_text(out[p].0.as_str(), name.as_str()) == 0 {
            proof {
                lemma_lex_sign_zero(out@[p as int].0@, name@);
                assert(names_of(out@)[p as int] == name@);
            }
        } else {
            let ghost before = out@;
            proof {
                if p < out@.len() {
                    lemma_lex_sign_flips(out@[p as int].0@, name@);
                }
                assert forall|k: int| 0 <= k < before.len() implies out@[k].0@ != name@ by {
                    if k < p {
                        assert(lex_sign(before[k].0@, name@) < 0);
                        if before[k].0@ == name@ {
                            crate::text::lemma_lex_sign_reflexive(name@);
                        }
                    } else {
                        assert(lex_sign(name@, before[p as int].0@) < 0);
                        if k > p {
                            assert(lex_sign(names_of(before)[p as int], names_of(before)[k]) < 0);
                            lemma_lex_sign_transitive(name@, before[p as int].0@, before[k].0@);
                        }
                        if before[k].0@ == name@ {
                            crate::text::lemma_lex_sign_reflexive(name@);
                        }
                    }
                }
            }
            out.insert(p, (name.clone(), paths[i].clone()));
            proof {
                assert(out@ == before.insert(p as int, (name, paths@[i as int])));
                assert(out@.len() == before.len() + 1);
                assert forall|x: int| 0 <= x < out@.len() implies #[trigger] names_of(out@)[x]
                    == (if x < p { names_of(before)[x] } else if x == p { name@ } else { names_of(before)[x - 1] }) by {
                    if x < p {
                        assert(out@[x] == before[x]);
                    } else if x > p {
                        assert(out@[x] == before[x - 1]);
                    }
                }
                let ghost gt = p < before.len() ==> lex_sign(names_of(before)[p as int], name@) > 0;
                assert(gt);
                assert forall|a: int, b: int| 0 <= a < b < out@.len() implies lex_sign(names_of(out@)[a], names_of(out@)[b]) < 0 by {
                    assert(names_of(out@)[a] == (if a < p { names_of(before)[a] } else if a == p { name@ } else { names_of(before)[a - 1] }));
                    assert(names_of(out@)[b] == (if b < p { names_of(before)[b] } else if b == p { name@ } else { names_of(before)[b - 1] }));
                    if b < p {
                        assert(lex_sign(names_of(before)[a], names_of(before)[b]) < 0);
                    } else if a < p && b == p {
                        assert(lex_sign(before[a].0@, name@) < 0);
                    } else if a < p && b > p {
                        assert(lex_sign(names_of(before)[a], names_of(before)[b - 1]) < 0);
                    } else if a == p {
                        lemma_lex_sign_flips(names_of(before)[p as int], name@);
                        if b - 1 > p {
                            assert(lex_sign(names_of(before)[p as int], names_of(before)[b - 1]) < 0);
                            lemma_lex_sign_transitive(name@, names_of(before)[p as int], names_of(before)[b - 1]);
                        }
                    } else {
                        assert(lex_sign(names_of(before)[a - 1], names_of(before)[b - 1]) < 0);
                    }
                }
                assert forall|k: int| 0 <= k < out@.len() implies #[trigger] first_with_name(pv.take(i as int + 1), out@[k].0@, out@[k].1@) by {
                    if k < p {
                        assert(out@[k] == before[k]);
                    } else if k > p {
                        assert(out@[k] == before[k - 1]);
                    } else {
                        assert(pv.take(i as int + 1)[i as int] == paths@[i as int]@);
                        assert(file_name_of(paths@[i as int]@) == name@);
                        assert forall|j: int| 0 <= j < i implies file_name_of(#[trigger] pv.take(i as int + 1)[j]) != name@ by {
                            assert(pv.take(i as int + 1)[j] == paths@[j]@);
                            assert(names_of(before).contains(file_name_of(paths@[j]@)));
                        }
                    }
                }
                assert forall|m: int| 0 <= m < i implies names_of(out@).contains(file_name_of(#[trigger] paths@[m]@)) by {
                    assert(names_of(before).contains(file_name_of(paths@[m]@)));
                    let w = choose|w: int| 0 <= w < names_of(before).len() && names_of(before)[w] == file_name_of(paths@[m]@);
                    if w < p {
                        assert(names_of(out@)[w] == names_of(before)[w]);
                    } else {
                        assert(names_of(out@)[w + 1] == names_of(before)[w]);
                    }
                }
                assert(names_of(out@)[p as int] == name@);
            }
        }
        proof {
            assert(names_of(out@).contains(name@));
            assert forall|m: int| 0 <= m < i + 1 implies names_of(out@).contains(file_name_of(#[trigger] paths@[m]@)) by {
                if m == i {
                    assert(file_name_of(paths@[m]@) == name@);
                }
            }
        }
        i = i + 1;
    }
    assert(string_views(paths@).take(i as int) =~= string_views(paths@));
    out
}

} // verus!
