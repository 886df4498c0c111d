use vstd::prelude::*;
use vstd::string::{StrSliceExecFns, StringExecFns};
use crate::paths::path_join;
use crate::platform::{FileSystem, Host};
use crate::text::str_eq;
use crate::util::string_views;

verus! {

/// Where QEMU is commonly installed on Unix hosts: the system, Homebrew on
/// Intel and Apple Silicon macOS and on Linux, and MacPorts.
pub open spec fn default_dirs() -> Seq<Seq<char>> {
    seq!["/usr/bin"@, "/usr/local/bin"@, "/opt/homebrew/bin"@, "/home/linuxbrew/.linuxbrew/bin"@, "/opt/local/bin"@]
}

/// The texts of `dirs` in order, each kept at its first occurrence only.
pub open spec fn dedup(dirs: Seq<Seq<char>>) -> Seq<Seq<char>>
    decreases dirs.len(),
{
    if dirs.len() == 0 {
        Seq::empty()
    } else if dedup(dirs.drop_last()).contains(dirs.last()) {
        dedup(dirs.drop_last())
    } else {
        dedup(dirs.drop_last()).push(dirs.last())
    }
}

/// The parts of `s` between separators `sep`; an empty text is one empty
/// part.
pub open spec fn split_on(s: Seq<char>, sep: char) -> Seq<Seq<char>>
    decreases s.len(),
{
    if s.len() == 0 {
        seq![Seq::empty()]
    } else {
        let before = split_on(s.drop_last(), sep);
        if s.last() == sep {
            before.push(Seq::empty())
        } else {
            before.update(before.len() - 1, before.last().push(s.last()))
        }
    }
}

/// The entries of a `PATH` value: its parts between colons, empty parts
/// left out, as `std::env::split_paths` reads it on Unix.
pub open spec fn path_entries(path: Seq<char>) -> Seq<Seq<char>> {
    split_on(path, ':').filter(nonempty_entry())
}

/// Whether a `PATH` entry names a directory: an empty one does not.
pub open spec fn nonempty_entry() -> spec_fn(Seq<char>) -> bool {
    |p: Seq<char>| p.len() > 0
}

/// The directories searched for QEMU: the override, the entries of
/// `PATH`, then the common install places, each once.
pub open spec fn search_dirs(override_dir: Option<Seq<char>>, path: Option<Seq<char>>) -> Seq<Seq<char>> {
    dedup((match override_dir { Some(d) => seq![d], None => Seq::empty() })
        + (match path { Some(p) => path_entries(p), None => Seq::empty() })
        + default_dirs())
}

/// `dirs` joined by colons.
pub open spec fn colon_join(dirs: Seq<Seq<char>>) -> Seq<char>
    decreases dirs.len(),
{
    if dirs.len() == 0 {
        Seq::empty()
    } else if dirs.len() == 1 {
        dirs[0]
    } else {
        colon_join(dirs.drop_last()) + seq![':'] + dirs.last()
    }
}

/// The `PATH` value of a list of directories, as `std::env::join_paths`
/// makes it on Unix: joined by colons, or empty when a directory holds a
/// colon and cannot be joined.
pub open spec fn path_value(dirs: Seq<Seq<char>>) -> Seq<char> {
    if exists|i: int| 0 <= i < dirs.len() && #[trigger] dirs[i].contains(':') {
        Seq::empty()
    } else {
        colon_join(dirs)
    }
}

/// The `PATH` a QEMU command gets on a host: the search path built from
/// the host's `CUBIC_QEMU_DIR` and `PATH`.
pub open spec fn qemu_search_path<S: Host>(system: &S) -> Seq<char> {
    path_value(search_dirs(system.env_value("CUBIC_QEMU_DIR"@), system.env_value("PATH"@)))
}

/// Builds the search path for the QEMU binaries: the `CUBIC_QEMU_DIR`
/// override, the `PATH` of the host, then the common install places, each
/// directory once and in that order.
pub struct QemuPathBuilder {
    dirs: Vec<String>,
}

impl QemuPathBuilder {
    pub closed spec fn dirs_view(&self) -> Seq<Seq<char>> {
        string_views(self.dirs@)
    }

    /// The search path from the environment of the host: the values of
    /// `CUBIC_QEMU_DIR` and `PATH`.
    pub fn new<S: Host>(system: &S) -> (r: QemuPathBuilder)
        ensures
            system.keeps_model() ==> r.dirs_view() == search_dirs(system.env_value("CUBIC_QEMU_DIR"@), system.env_value("PATH"@)),
            exists|o: Option<Seq<char>>, p: Option<Seq<char>>| r.dirs_view() == #[trigger] search_dirs(o, p),
    {
        let override_dir = system.read_env_var("CUBIC_QEMU_DIR");
        let path = system.read_env_var("PATH");
        let ghost o = match &override_dir { Some(d) => Some(d@), None => None };
        let ghost q = match &path { Some(v) => Some(v@), None => None };
        let r = Self::new_from_env(override_dir, path);
        assert(r.dirs_view() == search_dirs(o, q));
        r
    }

    /// The search path for an override directory and a `PATH` value.
    pub fn new_from_env(override_dir: Option<String>, path: Option<String>) -> (r: QemuPathBuilder)
        ensures
            r.dirs_view() == search_dirs(
                match override_dir { Some(d) => Some(d@), None => None },
                match path { Some(p) => Some(p@), None => None }),
    {
        let mut dirs: Vec<String> = Vec::new();
        let ghost head = match &override_dir { Some(d) => seq![d@], None => Seq::<Seq<char>>::empty() };
        if let Some(dir) = override_dir {
            dirs.push(dir);
        }
        assert(string_views(dirs@) =~= head);
        let ghost entries_view = match &path { Some(p) => path_entries(p@), None => Seq::<Seq<char>>::empty() };
        if let Some(p) = path {
            let entries = split_path_var(p.as_str());
            let ghost start = string_views(dirs@);
            let mut i: usize = 0;
            while i < entries.len()
                invariant
                    0 <= i <= entries@.len(),
                    string_views(dirs@) == start + string_views(entries@).take(i as int),
                decreases entries@.len() - i,
            {
                let ghost before = dirs@;
                dirs.push(entries[i].clone());
                assert(string_views(dirs@) =~= string_views(before).push(entries@[i as int]@));
                assert(string_views(entries@).take(i as int + 1) =~= string_views(entries@).take(i as int).push(entries@[i as int]@));
                assert(string_views(dirs@) =~= start + string_views(entries@).take(i as int + 1));
                i = i + 1;
            }
            assert(string_views(entries@).take(i as int) =~= string_views(entries@));
        }
        assert(string_views(dirs@) =~= head + entries_view);
        let ghost middle = string_views(dirs@);
        dirs.push(String::from_str("/usr/bin"));
        dirs.push(String::from_str("/usr/local/bin"));
        dirs.push(String::from_str("/opt/homebrew/bin"));
        dirs.push(String::from_str("/home/linuxbrew/.linuxbrew/bin"));
        dirs.push(String::from_str("/opt/local/bin"));
        assert(string_views(dirs@) =~= middle + default_dirs());
        Self::new_from_dirs(dirs)
    }

    /// The search path over `dirs`, in order, each directory once.
    pub fn new_from_dirs(dirs: Vec<String>) -> (r: QemuPathBuilder)
        ensures
            r.dirs_view() == dedup(string_views(dirs@)),
    {
        let ghost input = string_views(dirs@);
        let mut kept: Vec<String> = Vec::new();
        let mut i: usize = 0;
        while i < dirs.len()
            invariant
                0 <= i <= dirs@.len(),
                input == string_views(dirs@),
                string_views(kept@) == dedup(input.take(i as int)),
            decreases dirs@.len() - i,
        {
            proof { assert(input.take(i as int + 1).drop_last() =~= input.take(i as int)); }
            let mut seen = false;
            let mut j: usize = 0;
            while j < kept.len()
                invariant
                    0 <= j <= kept@.len(),
                    i < dirs@.len(),
                    seen == string_views(kept@).take(j as int).contains(dirs@[i as int]@),
                decreases kept@.len() - j,
            {
                let ghost before = string_views(kept@).take(j as int);
                assert(string_views(kept@).take(j as int + 1) =~= before.push(kept@[j as int]@));
                if str_eq(kept[j].as_str(), dirs[i].as_str()) {
                    seen = true;
                    assert(string_views(kept@).take(j as int + 1)[j as int] == dirs@[i as int]@);
                } else {
                    assert forall|x: Seq<char>| #[trigger] before.push(kept@[j as int]@).contains(x) && x == dirs@[i as int]@
                        implies before.contains(x) by {
                        let k = choose|k: int| 0 <= k < before.len() + 1 && before.push(kept@[j as int]@)[k] == x;
                        if k < before.len() {
                            assert(before[k] == x);
                        }
                    }
                }
                j = j + 1;
            }
            assert(string_views(kept@).take(kept@.len() as int) =~= string_views(kept@));
            if !seen {
                let ghost prev = kept@;
                kept.push(dirs[i].clone());
                assert(string_views(kept@) =~= string_views(prev).push(dirs@[i as int]@));
            }
            i = i + 1;
        }
        assert(input.take(dirs@.len() as int) =~= input);
        QemuPathBuilder { dirs: kept }
    }

    /// The `PATH` value of the search path, empty when a directory cannot
    /// be joined.
    pub fn build(&self) -> (r: String)
        ensures
            r@ == path_value(self.dirs_view()),
    {
        let mut r = String::new();
        let mut i: usize = 0;
        while i < self.dirs.len()
            invariant
                0 <= i <= self.dirs@.len(),
                r@ == colon_join(self.dirs_view().take(i as int)),
                forall|k: int| 0 <= k < i ==> !(#[trigger] self.dirs_view()[k]).contains(':'),
            decreases self.dirs@.len() - i,
        {
            if has_colon(self.dirs[i].as_str()) {
                assert(self.dirs_view()[i as int].contains(':'));
                return String::new();
            }
            proof {
                reveal_strlit(":");
                assert(self.dirs_view().take(i as int + 1).drop_last() =~= self.dirs_view().take(i as int));
            }
            if i > 0 {
                r.append(":");
            } else {
                assert(self.dirs_view().take(1) =~= seq![self.dirs_view()[0]]);
            }
            r.append(self.dirs[i].as_str());
            i = i + 1;
        }
        assert(self.dirs_view().take(i as int) =~= self.dirs_view());
        r
    }

    pub fn get_dirs(&self) -> (r: &Vec<String>)
        ensures
            string_views(r@) == self.dirs_view(),
    {
        &self.dirs
    }
}

/// Whether `s` holds a colon.
fn has_colon(s: &str) -> (r: bool)
    ensures
        r == s@.contains(':'),
{
    let n = s.unicode_len();
    let mut i: usize = 0;
    while i < n
        invariant
            n == s@.len(),
            0 <= i <= n,
            forall|k: int| 0 <= k < i ==> s@[k] != ':',
        decreases n - i,
    {
        if s.get_char(i) == ':' {
            return true;
        }
        i = i + 1;
    }
    false
}

/// The non-empty parts of a `PATH` value between colons.
pub fn split_path_var(path: &str) -> (r: Vec<String>)
    ensures
        string_views(r@) == path_entries(path@),
{
    let parts = crate::qemu::qemu_system::split_on_char(path, ':');
    let ghost all = split_on(path@, ':');
    let mut out: Vec<String> = Vec::new();
    let mut i: usize = 0;
    assert(all.take(0) =~= Seq::<Seq<char>>::empty());
    assert(string_views(out@) =~= Seq::<Seq<char>>::empty());
    while i < parts.len()
        invariant
            0 <= i <= parts@.len(),
            all == string_views(parts@),
            string_views(out@) == all.take(i as int).filter(nonempty_entry()),
        decreases parts@.len() - i,
    {
        assert(all.take(i as int + 1).drop_last() =~= all.take(i as int));
        assert(all.take(i as int + 1).last() == parts@[i as int]@);
        assert(nonempty_entry()(parts@[i as int]@) == (parts@[i as int]@.len() > 0));
        proof { reveal(Seq::filter); }
        assert(all.take(i as int + 1).filter(nonempty_entry()) == (if parts@[i as int]@.len() > 0 {
            all.take(i as int).filter(nonempty_entry()).push(parts@[i as int]@)
        } else {
            all.take(i as int).filter(nonempty_entry())
        }));
        if parts[i].unicode_len() > 0 {
            let ghost before = out@;
            out.push(parts[i].clone());
            assert(string_views(out@) =~= string_views(before).push(parts@[i as int]@));
        }
        i = i + 1;
    }
    assert(all.take(i as int) =~= all);
    out
}

/// The path of `name` in `dir` that the host has: `dir/name`, or on a
/// Windows host also `dir/name.exe`.
pub open spec fn found_in_dir<S: FileSystem + Host>(system: &S, dir: Seq<char>, name: Seq<char>) -> Option<Seq<char>> {
    if system.path_exists(crate::paths::join_path(dir, name)) {
        Some(crate::paths::join_path(dir, name))
    } else if system.host_os() == "windows"@ && system.path_exists(crate::paths::join_path(dir, name + ".exe"@)) {
        Some(crate::paths::join_path(dir, name + ".exe"@))
    } else {
        None
    }
}

/// The path of `name` in `dir` when the host has a file there; on Windows
/// the name with `.exe` counts too.
pub fn find_in_dir<S: FileSystem + Host>(system: &S, dir: &str, name: &str) -> (r: Option<String>)
    ensures
        system.keeps_model() ==> (match r { Some(p) => Some(p@), None => None }) == found_in_dir(system, dir@, name@),
        r matches Some(p) ==> p@ == crate::paths::join_path(dir@, name@)
            || p@ == crate::paths::join_path(dir@, name@ + ".exe"@),
{
    let candidate = path_join(dir, name);
    if system.exists_path(candidate.as_str()) {
        return Some(candidate);
    }
    let os = system.get_os();
    proof { reveal_strlit("windows"); reveal_strlit(".exe"); }
    if str_eq(os.as_str(), "windows") {
        let mut exe_name = String::from_str(name);
        exe_name.append(".exe");
        let exe = path_join(dir, exe_name.as_str());
        if system.exists_path(exe.as_str()) {
            return Some(exe);
        }
    }
    None
}

/// The search path keeps no directory twice.
pub proof fn lemma_dedup_unique(dirs: Seq<Seq<char>>)
    ensures
        forall|i: int, j: int| 0 <= i < j < dedup(dirs).len() ==> dedup(dirs)[i] != dedup(dirs)[j],
    decreases dirs.len(),
{
    if dirs.len() > 0 {
        lemma_dedup_unique(dirs.drop_last());
        let before = dedup(dirs.drop_last());
        if !before.contains(dirs.last()) {
            assert forall|i: int, j: int| 0 <= i < j < dedup(dirs).len() implies dedup(dirs)[i] != dedup(dirs)[j] by {
                if j == before.len() {
                    assert(dedup(dirs)[i] == before[i]);
                }
            }
        }
    }
}

proof fn lemma_contains_push(s: Seq<Seq<char>>, x: Seq<char>, d: Seq<char>)
    ensures
        s.push(x).contains(d) <==> (s.contains(d) || d == x),
{
    if s.contains(d) {
        let k = choose|k: int| 0 <= k < s.len() && s[k] == d;
        assert(s.push(x)[k] == d);
    }
    if d == x {
        assert(s.push(x)[s.len() as int] == d);
    }
    if s.push(x).contains(d) {
        let k = choose|k: int| 0 <= k < s.len() + 1 && s.push(x)[k] == d;
        if k < s.len() {
            assert(s[k] == d);
        }
    }
}

/// The search path keeps every directory it was given, and nothing else.
pub proof fn lemma_dedup_same_dirs(dirs: Seq<Seq<char>>)
    ensures
        forall|d: Seq<char>| #[trigger] dedup(dirs).contains(d) <==> dirs.contains(d),
    decreases dirs.len(),
{
    if dirs.len() > 0 {
        lemma_dedup_same_dirs(dirs.drop_last());
        let before = dedup(dirs.drop_last());
        assert(dirs == dirs.drop_last().push(dirs.last()));
        assert forall|d: Seq<char>| #[trigger] dedup(dirs).contains(d) <==> dirs.contains(d) by {
            lemma_contains_push(dirs.drop_last(), dirs.last(), d);
            lemma_contains_push(before, dirs.last(), d);
        }
    }
}

} // verus!
