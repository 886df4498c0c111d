use vstd::prelude::*;
use vstd::string::{StrSliceExecFns, StringExecFns};
use crate::models::arch::{canonical_name, Arch};
use crate::paths::{contains, contains_text, join_path, path_join};
use crate::qemu::qemu_path_builder::split_on;
use crate::qemu::qemu_system::base_args;
use crate::text::str_eq;
use crate::util::string_views;
use crate::json::{get, get_member, get_text, get_text_list, json_parse, parse_json, text_list_or_empty, text_of, Json};

verus! {

/// The features that make a firmware unfit for a plain machine: secure
/// boot, SMM, and confidential computing.
pub open spec fn excluded_features() -> Seq<Seq<char>> {
    seq!["secure-boot"@, "requires-smm"@, "amd-sev-snp"@, "intel-tdx"@]
}

/// The file a firmware mapping loads.
pub struct FileRef {
    pub filename: String,
}

/// How a firmware is mapped into the machine.
pub struct Mapping {
    pub device: String,
    pub executable: FileRef,
}

/// An architecture and the machine types a firmware supports on it.
pub struct Target {
    pub architecture: String,
    pub machines: Vec<String>,
}

/// A QEMU firmware descriptor, as the JSON files of QEMU installs describe
/// a firmware.
pub struct QemuFirmwareDescriptor {
    pub interface_types: Vec<String>,
    pub mapping: Mapping,
    pub targets: Vec<Target>,
    pub features: Vec<String>,
}

/// The machine type a firmware must support for an architecture.
pub open spec fn machine_type(arch: Arch) -> Seq<char> {
    match arch {
        Arch::AMD64 => "q35"@,
        Arch::ARM64 => "virt"@,
    }
}

/// Whether a target supports a machine type of an architecture.
pub open spec fn target_fits(t: Target, arch: Arch) -> bool {
    &&& t.architecture@ == canonical_name(arch)
    &&& exists|j: int| 0 <= j < t.machines@.len() && contains_text(#[trigger] t.machines@[j]@, machine_type(arch))
}

/// Whether a descriptor describes a plain UEFI flash firmware for a machine
/// of the architecture.
pub open spec fn descriptor_fits(d: QemuFirmwareDescriptor, arch: Arch) -> bool {
    &&& d.mapping.device@ == "flash"@
    &&& string_views(d.interface_types@).contains("uefi"@)
    &&& forall|i: int| 0 <= i < d.features@.len() ==> !excluded_features().contains(#[trigger] d.features@[i]@)
    &&& exists|i: int| 0 <= i < d.targets@.len() && target_fits(#[trigger] d.targets@[i], arch)
}

/// The non-empty components of a path.
pub open spec fn components(p: Seq<char>) -> Seq<Seq<char>> {
    split_on(p, '/').filter(|c: Seq<char>| c.len() > 0)
}

/// Components joined by slashes.
pub open spec fn slash_join(parts: Seq<Seq<char>>) -> Seq<char>
    decreases parts.len(),
{
    if parts.len() == 0 {
        Seq::empty()
    } else if parts.len() == 1 {
        parts[0]
    } else {
        slash_join(parts.drop_last()) + seq!['/'] + parts.last()
    }
}

/// Whether `i` is the first position of a `share` component.
pub open spec fn is_first_share(parts: Seq<Seq<char>>, i: int) -> bool {
    0 <= i < parts.len() && parts[i] == "share"@ && forall|j: int| 0 <= j < i ==> parts[j] != "share"@
}

/// Where the code of a descriptor lies under an install prefix: from its
/// first `share` component on, under the prefix; a path without one is
/// taken as it is.
pub open spec fn code_path(code: Seq<char>, prefix: Seq<char>) -> Seq<char> {
    let parts = components(code);
    if parts.contains("share"@) {
        join_path(prefix, slash_join(parts.skip(choose|i: int| is_first_share(parts, i))))
    } else {
        code
    }
}

/// Whether a list of texts holds `item`.
fn has_text(list: &Vec<String>, item: &str) -> (r: bool)
    ensures
        r == string_views(list@).contains(item@),
{
    let mut i: usize = 0;
    while i < list.len()
        invariant
            0 <= i <= list@.len(),
            forall|k: int| 0 <= k < i ==> list@[k]@ != item@,
        decreases list@.len() - i,
    {
        if str_eq(list[i].as_str(), item) {
            assert(string_views(list@)[i as int] == item@);
            return true;
        }
        i = i + 1;
    }
    assert forall|k: int| 0 <= k < string_views(list@).len() implies string_views(list@)[k] != item@ by {
        assert(string_views(list@)[k] == list@[k]@);
    }
    false
}

fn is_excluded(feature: &str) -> (r: bool)
    ensures
        r == excluded_features().contains(feature@),
{
    let r = str_eq(feature, "secure-boot") || str_eq(feature, "requires-smm") || str_eq(feature, "amd-sev-snp")
        || str_eq(feature, "intel-tdx");
    proof {
        if excluded_features().contains(feature@) {
            let k = choose|k: int| 0 <= k < 4 && excluded_features()[k] == feature@;
            assert(k == 0 || k == 1 || k == 2 || k == 3);
        }
        if r {
            if feature@ == "secure-boot"@ { assert(excluded_features()[0] == feature@); }
            if feature@ == "requires-smm"@ { assert(excluded_features()[1] == feature@); }
            if feature@ == "amd-sev-snp"@ { assert(excluded_features()[2] == feature@); }
            if feature@ == "intel-tdx"@ { assert(excluded_features()[3] == feature@); }
        }
    }
    r
}

impl QemuFirmwareDescriptor {
    /// Whether the descriptor describes a plain UEFI flash firmware for a
    /// machine of `arch`: q35 for x86_64, virt for aarch64.
    pub fn matches(&self, arch: Arch) -> (r: bool)
        ensures
            r == descriptor_fits(*self, arch),
    {
        let machine = match arch {
            Arch::AMD64 => "q35",
            Arch::ARM64 => "virt",
        };
        if !str_eq(self.mapping.device.as_str(), "flash") {
            return false;
        }
        if !has_text(&self.interface_types, "uefi") {
            return false;
        }
        let mut i: usize = 0;
        while i < self.features.len()
            invariant
                0 <= i <= self.features@.len(),
                forall|k: int| 0 <= k < i ==> !excluded_features().contains(#[trigger] self.features@[k]@),
            decreases self.features@.len() - i,
        {
            if is_excluded(self.features[i].as_str()) {
                return false;
            }
            i = i + 1;
        }
        let canonical = arch.as_canonical_str();
        let mut t: usize = 0;
        while t < self.targets.len()
            invariant
                0 <= t <= self.targets@.len(),
                machine@ == machine_type(arch),
                canonical@ == canonical_name(arch),
                self.mapping.device@ == "flash"@,
                string_views(self.interface_types@).contains("uefi"@),
                forall|k: int| 0 <= k < self.features@.len() ==> !excluded_features().contains(#[trigger] self.features@[k]@),
                forall|k: int| 0 <= k < t ==> !target_fits(#[trigger] self.targets@[k], arch),
            decreases self.targets@.len() - t,
        {
            let target = &self.targets[t];
            if str_eq(target.architecture.as_str(), canonical) {
                let mut j: usize = 0;
                while j < target.machines.len()
                    invariant
                        0 <= j <= target.machines@.len(),
                        machine@ == machine_type(arch),
                        t < self.targets@.len(),
                        *target == self.targets@[t as int],
                        target.architecture@ == canonical_name(arch),
                        self.mapping.device@ == "flash"@,
                        string_views(self.interface_types@).contains("uefi"@),
                        forall|k: int| 0 <= k < self.features@.len() ==> !excluded_features().contains(#[trigger] self.features@[k]@),
                        forall|k: int| 0 <= k < j ==> !contains_text(#[trigger] target.machines@[k]@, machine_type(arch)),
                    decreases target.machines@.len() - j,
                {
                    if contains(target.machines[j].as_str(), machine) {
                        assert(target_fits(self.targets@[t as int], arch));
                        return true;
                    }
                    j = j + 1;
                }
            }
            t = t + 1;
        }
        false
    }

    /// Where the code of the firmware lies under the install `prefix`.
    pub fn build_code_path(&self, prefix: &str) -> (r: String)
        ensures
            r@ == code_path(self.mapping.executable.filename@, prefix@),
    {
        let code = self.mapping.executable.filename.as_str();
        let parts = crate::qemu::qemu_system::split_on_char(code, '/');
        let ghost comps = components(code@);
        let mut kept: Vec<String> = Vec::new();
        let mut i: usize = 0;
        while i < parts.len()
            invariant
                0 <= i <= parts@.len(),
                string_views(parts@) == split_on(code@, '/'),
                string_views(kept@) == string_views(parts@).take(i as int).filter(|c: Seq<char>| c.len() > 0),
            decreases parts@.len() - i,
        {
            proof {
                assert(string_views(parts@).take(i as int + 1).drop_last() =~= string_views(parts@).take(i as int));
                string_views(parts@).take(i as int).lemma_filter_push(parts@[i as int]@, |c: Seq<char>| c.len() > 0);
                assert(string_views(parts@).take(i as int + 1) =~= string_views(parts@).take(i as int).push(parts@[i as int]@));
            }
            if parts[i].as_str().unicode_len() > 0 {
                let ghost prev = kept@;
                kept.push(parts[i].clone());
                assert(string_views(kept@) =~= string_views(prev).push(parts@[i as int]@));
            }
            i = i + 1;
        }
        assert(string_views(parts@).take(parts@.len() as int) =~= string_views(parts@));
        let mut s: usize = 0;
        while s < kept.len()
            invariant
                0 <= s <= kept@.len(),
                string_views(kept@) == comps,
                comps == components(code@),
                code@ == self.mapping.executable.filename@,
                forall|k: int| 0 <= k < s ==> comps[k] != "share"@,
            decreases kept@.len() - s,
        {
            if str_eq(kept[s].as_str(), "share") {
                let mut tail = kept[s].clone();
                let mut k: usize = s + 1;
                proof {
                    assert(comps.skip(s as int).take(1) =~= seq![comps[s as int]]);
                }
                while k < kept.len()
                    invariant
                        s < k <= kept@.len(),
                        string_views(kept@) == comps,
                        tail@ == slash_join(comps.skip(s as int).take(k - s)),
                    decreases kept@.len() - k,
                {
                    proof {
                        reveal_strlit("/");
                        assert(comps.skip(s as int).take(k - s + 1).drop_last() =~= comps.skip(s as int).take(k - s));
                        assert(comps.skip(s as int).take(k - s + 1).last() == kept@[k as int]@);
                    }
                    tail.append("/");
                    tail.append(kept[k].as_str());
                    k = k + 1;
                }
                assert(comps.skip(s as int).take(k - s) =~= comps.skip(s as int));
                proof {
                    assert(comps[s as int] == "share"@);
                    assert(comps.contains("share"@));
                    assert(is_first_share(comps, s as int));
                    let c = choose|i: int| is_first_share(comps, i);
                    assert(is_first_share(comps, c));
                    assert(c == s as int);
                }
                return path_join(prefix, tail.as_str());
            }
            s = s + 1;
        }
        proof {
            if comps.contains("share"@) {
                let k = choose|k: int| 0 <= k < comps.len() && comps[k] == "share"@;
                assert(false);
            }
        }
        code.to_string()
    }
}

/// A descriptor as values.
pub struct DescriptorView {
    pub interface_types: Seq<Seq<char>>,
    pub device: Seq<char>,
    pub filename: Seq<char>,
    pub targets: Seq<(Seq<char>, Seq<Seq<char>>)>,
    pub features: Seq<Seq<char>>,
}

/// The values of a descriptor.
pub open spec fn descriptor_view(d: QemuFirmwareDescriptor) -> DescriptorView {
    DescriptorView {
        interface_types: string_views(d.interface_types@),
        device: d.mapping.device@,
        filename: d.mapping.executable.filename@,
        targets: Seq::new(d.targets@.len(), |i: int| (d.targets@[i].architecture@, string_views(d.targets@[i].machines@))),
        features: string_views(d.features@),
    }
}

/// The target a JSON object describes: an architecture, and machines that
/// may be left out.
pub open spec fn target_of(j: Json) -> Option<(Seq<char>, Seq<Seq<char>>)> {
    match j {
        Json::Object(_) => match (text_of(get(j, "architecture"@)), text_list_or_empty(get(j, "machines"@))) {
            (Some(a), Some(m)) => Some((a, m)),
            _ => None,
        },
        _ => None,
    }
}

/// The targets of a JSON array.
pub open spec fn targets_of(items: Seq<Json>) -> Option<Seq<(Seq<char>, Seq<Seq<char>>)>>
    decreases items.len(),
{
    if items.len() == 0 {
        Some(Seq::empty())
    } else {
        match (targets_of(items.drop_last()), target_of(items.last())) {
            (Some(t), Some(x)) => Some(t.push(x)),
            _ => None,
        }
    }
}

/// The descriptor a JSON value describes, with the member names in kebab
/// case: `mapping` with its `device` and `executable.filename` is required,
/// `interface-types`, `targets` and `features` may be left out.
pub open spec fn descriptor_of_json(j: Json) -> Option<DescriptorView> {
    match j {
        Json::Object(_) => {
            let mapping = get(j, "mapping"@);
            let device = match mapping { Some(m) => text_of(get(m, "device"@)), None => None };
            let filename = match mapping {
                Some(m) => match get(m, "executable"@) { Some(e) => text_of(get(e, "filename"@)), None => None },
                None => None,
            };
            let targets = match get(j, "targets"@) {
                None => Some(Seq::empty()),
                Some(Json::Array(items)) => targets_of(items@),
                Some(_) => None,
            };
            match (text_list_or_empty(get(j, "interface-types"@)), device, filename, targets,
                text_list_or_empty(get(j, "features"@))) {
                (Some(i), Some(d), Some(f), Some(t), Some(x)) => Some(DescriptorView {
                    interface_types: i, device: d, filename: f, targets: t, features: x,
                }),
                _ => None,
            }
        },
        _ => None,
    }
}

/// Whether a target, as values, fits a machine of the architecture.
pub open spec fn target_view_fits(t: (Seq<char>, Seq<Seq<char>>), arch: Arch) -> bool {
    &&& t.0 == canonical_name(arch)
    &&& exists|j: int| 0 <= j < t.1.len() && contains_text(#[trigger] t.1[j], machine_type(arch))
}

/// Whether a descriptor, as values, describes a plain UEFI flash firmware
/// for a machine of the architecture.
pub open spec fn view_fits(v: DescriptorView, arch: Arch) -> bool {
    &&& v.device == "flash"@
    &&& v.interface_types.contains("uefi"@)
    &&& forall|i: int| 0 <= i < v.features.len() ==> !excluded_features().contains(#[trigger] v.features[i])
    &&& exists|i: int| 0 <= i < v.targets.len() && target_view_fits(#[trigger] v.targets[i], arch)
}

/// A descriptor fits exactly when its values do.
pub proof fn lemma_view_fits(d: QemuFirmwareDescriptor, arch: Arch)
    ensures
        descriptor_fits(d, arch) == view_fits(descriptor_view(d), arch),
{
    let v = descriptor_view(d);
    if forall|i: int| 0 <= i < d.features@.len() ==> !excluded_features().contains(#[trigger] d.features@[i]@) {
        assert forall|i: int| 0 <= i < v.features.len() implies !excluded_features().contains(#[trigger] v.features[i]) by {
            assert(v.features[i] == d.features@[i]@);
        }
    }
    if forall|i: int| 0 <= i < v.features.len() ==> !excluded_features().contains(#[trigger] v.features[i]) {
        assert forall|i: int| 0 <= i < d.features@.len() implies !excluded_features().contains(#[trigger] d.features@[i]@) by {
            assert(v.features[i] == d.features@[i]@);
        }
    }
    assert forall|i: int| 0 <= i < d.targets@.len() implies target_fits(#[trigger] d.targets@[i], arch)
        == target_view_fits(v.targets[i], arch) by {
        let t = d.targets@[i];
        assert(v.targets[i] == (t.architecture@, string_views(t.machines@)));
        assert((exists|j: int| 0 <= j < t.machines@.len() && contains_text(#[trigger] t.machines@[j]@, machine_type(arch)))
            == (exists|j: int| 0 <= j < v.targets[i].1.len() && contains_text(#[trigger] v.targets[i].1[j], machine_type(arch)))) by {
            if exists|j: int| 0 <= j < t.machines@.len() && contains_text(#[trigger] t.machines@[j]@, machine_type(arch)) {
                let j = choose|j: int| 0 <= j < t.machines@.len() && contains_text(#[trigger] t.machines@[j]@, machine_type(arch));
                assert(v.targets[i].1[j] == t.machines@[j]@);
            }
            if exists|j: int| 0 <= j < v.targets[i].1.len() && contains_text(#[trigger] v.targets[i].1[j], machine_type(arch)) {
                let j = choose|j: int| 0 <= j < v.targets[i].1.len() && contains_text(#[trigger] v.targets[i].1[j], machine_type(arch));
                assert(v.targets[i].1[j] == t.machines@[j]@);
            }
        }
    }
    if exists|i: int| 0 <= i < d.targets@.len() && target_fits(#[trigger] d.targets@[i], arch) {
        let i = choose|i: int| 0 <= i < d.targets@.len() && target_fits(#[trigger] d.targets@[i], arch);
        assert(target_view_fits(v.targets[i], arch));
    }
    if exists|i: int| 0 <= i < v.targets.len() && target_view_fits(#[trigger] v.targets[i], arch) {
        let i = choose|i: int| 0 <= i < v.targets.len() && target_view_fits(#[trigger] v.targets[i], arch);
        assert(target_fits(d.targets@[i], arch));
    }
}

/// The descriptor a JSON text describes.
pub open spec fn descriptor_parse(text: Seq<char>) -> Option<DescriptorView> {
    match json_parse(text) {
        Some(j) => descriptor_of_json(j),
        None => None,
    }
}

/// Whether some JSON text describes the descriptor `d`.
pub open spec fn is_described(d: DescriptorView) -> bool {
    exists|text: Seq<char>| descriptor_parse(text) == Some(d)
}

fn parse_target(j: &Json) -> (r: Option<Target>)
    ensures
        r matches Some(t) ==> target_of(*j) == Some((t.architecture@, string_views(t.machines@))),
        r is None ==> target_of(*j) is None,
{
    match j {
        Json::Object(_) => {
            let architecture = match get_text(get_member(j, "architecture")) {
                Some(a) => a,
                None => return None,
            };
            let machines = match get_text_list(get_member(j, "machines")) {
                Some(m) => m,
                None => return None,
            };
            Some(Target { architecture, machines })
        },
        _ => None,
    }
}

fn parse_targets(j: Option<&Json>) -> (r: Option<Vec<Target>>)
    ensures
        r matches Some(v) ==> (match j {
            None => Seq::<(Seq<char>, Seq<Seq<char>>)>::empty(),
            Some(x) => match *x { Json::Array(items) => targets_of(items@)->0, _ => Seq::empty() },
        }) == Seq::new(v@.len(), |i: int| (v@[i].architecture@, string_views(v@[i].machines@)))
            && (j matches Some(x) ==> (x matches Json::Array(items) && targets_of(items@) is Some)),
        r is None ==> (j matches Some(x) && !(x matches Json::Array(items) && targets_of(items@) is Some)),
{
    match j {
        None => {
            let v: Vec<Target> = Vec::new();
            assert(Seq::new(v@.len(), |i: int| (v@[i].architecture@, string_views(v@[i].machines@)))
                =~= Seq::<(Seq<char>, Seq<Seq<char>>)>::empty());
            Some(v)
        },
        Some(Json::Array(items)) => {
            let mut out: Vec<Target> = Vec::new();
            let mut i: usize = 0;
            assert(items@.take(0) =~= Seq::<Json>::empty());
            assert(Seq::new(out@.len(), |k: int| (out@[k].architecture@, string_views(out@[k].machines@)))
                =~= Seq::<(Seq<char>, Seq<Seq<char>>)>::empty());
            while i < items.len()
                invariant
                    0 <= i <= items@.len(),
                    out@.len() == i,
                    j matches Some(x) && *x == Json::Array(*items),
                    targets_of(items@.take(i as int))
                        == Some(Seq::new(out@.len(), |k: int| (out@[k].architecture@, string_views(out@[k].machines@)))),
                decreases items@.len() - i,
            {
                assert(items@.take(i as int + 1).drop_last() =~= items@.take(i as int));
                assert(items@.take(i as int + 1).last() == items@[i as int]);
                match parse_target(&items[i]) {
                    Some(t) => {
                        let ghost prev = out@;
                        out.push(t);
                        assert(Seq::new(out@.len(), |k: int| (out@[k].architecture@, string_views(out@[k].machines@)))
                            =~= Seq::new(prev.len(), |k: int| (prev[k].architecture@, string_views(prev[k].machines@)))
                                .push((out@[i as int].architecture@, string_views(out@[i as int].machines@))));
                    },
                    None => {
                        proof { lemma_targets_of_prefix(items@, i as int + 1); }
                        return None;
                    },
                }
                i = i + 1;
            }
            assert(items@.take(i as int) =~= items@);
            Some(out)
        },
        Some(_) => None,
    }
}

/// A list whose prefix holds no targets holds none either.
pub proof fn lemma_targets_of_prefix(items: Seq<Json>, k: int)
    requires
        0 <= k <= items.len(),
        targets_of(items.take(k)) is None,
    ensures
        targets_of(items) is None,
    decreases items.len() - k,
{
    if k < items.len() {
        assert(items.take(k + 1).drop_last() =~= items.take(k));
        lemma_targets_of_prefix(items, k + 1);
    } else {
        assert(items.take(k) =~= items);
    }
}

impl QemuFirmwareDescriptor {
    /// Reads a descriptor from its JSON text.
    pub fn parse(json: &str) -> (r: Option<QemuFirmwareDescriptor>)
        ensures
            r matches Some(d) ==> descriptor_parse(json@) == Some(descriptor_view(d)),
            r is None ==> descriptor_parse(json@) is None,
    {
        let j = match parse_json(json) {
            Some(j) => j,
            None => return None,
        };
        Self::from_json(&j)
    }

    /// The descriptor a JSON value describes.
    pub fn from_json(j: &Json) -> (r: Option<QemuFirmwareDescriptor>)
        ensures
            r matches Some(d) ==> descriptor_of_json(*j) == Some(descriptor_view(d)),
            r is None ==> descriptor_of_json(*j) is None,
    {
        match j {
            Json::Object(_) => {},
            _ => return None,
        }
        let interface_types = match get_text_list(get_member(j, "interface-types")) {
            Some(v) => v,
            None => return None,
        };
        let mapping = match get_member(j, "mapping") {
            Some(m) => m,
            None => return None,
        };
        let device = match get_text(get_member(mapping, "device")) {
            Some(d) => d,
            None => return None,
        };
        let executable = match get_member(mapping, "executable") {
            Some(e) => e,
            None => return None,
        };
        let filename = match get_text(get_member(executable, "filename")) {
            Some(f) => f,
            None => return None,
        };
        let targets = match parse_targets(get_member(j, "targets")) {
            Some(t) => t,
            None => return None,
        };
        let features = match get_text_list(get_member(j, "features")) {
            Some(f) => f,
            None => return None,
        };
        let d = QemuFirmwareDescriptor {
            interface_types,
            mapping: Mapping { device, executable: FileRef { filename } },
            targets,
            features,
        };
        assert(descriptor_of_json(*j) == Some(descriptor_view(d)));
        Some(d)
    }
}

/// The machine type a firmware must support is the machine QEMU is started
/// with on that architecture, the value of its `-machine` argument, on any
/// host.
pub proof fn lemma_machine_type_is_started_machine(arch: Arch, os: Seq<char>)
    ensures
        base_args(arch, os)[0] == "-machine"@,
        base_args(arch, os)[1] == machine_type(arch),
{
}

/// A plain UEFI flash firmware whose target is the architecture and lists
/// a machine type naming the machine QEMU starts fits the architecture.
pub proof fn lemma_firmware_for_started_machine_fits(d: QemuFirmwareDescriptor, arch: Arch, os: Seq<char>, i: int, j: int)
    requires
        d.mapping.device@ == "flash"@,
        string_views(d.interface_types@).contains("uefi"@),
        d.features@.len() == 0,
        0 <= i < d.targets@.len(),
        d.targets@[i].architecture@ == canonical_name(arch),
        0 <= j < d.targets@[i].machines@.len(),
        contains_text(d.targets@[i].machines@[j]@, base_args(arch, os)[1]),
    ensures
        descriptor_fits(d, arch),
{
    lemma_machine_type_is_started_machine(arch, os);
    assert(target_fits(d.targets@[i], arch));
}

} // verus!
