use vstd::prelude::*;
use vstd::string::{StrSliceExecFns, StringExecFns};
use crate::error::Error;
use crate::platform::system_mock::{last_entry, lemma_last_entry_found, lemma_last_entry_skip, SystemMock};
use crate::platform::FileSystem;
use crate::paths::path_join;
use crate::text::{str_eq, text_from_utf8};
use crate::util::string_views;
use vstd::utf8::{decode_utf8, valid_utf8};

verus! {

/// A path without its trailing slashes, the root excepted: `/data/bar/`
/// names the same place as `/data/bar`.
pub open spec fn normalize(p: Seq<char>) -> Seq<char>
    decreases p.len(),
{
    if p.len() > 1 && p.last() == '/' {
        normalize(p.drop_last())
    } else {
        p
    }
}

/// A normalized path is its own normal form: trailing slashes are gone
/// after one pass.
pub proof fn lemma_normalize_idempotent(p: Seq<char>)
    ensures
        normalize(normalize(p)) == normalize(p),
    decreases p.len(),
{
    if p.len() > 1 && p.last() == '/' {
        lemma_normalize_idempotent(p.drop_last());
    }
}

/// The position of the last `/` of `p`, if any.
pub open spec fn last_slash(p: Seq<char>) -> Option<int>
    decreases p.len(),
{
    if p.len() == 0 {
        None
    } else if p.last() == '/' {
        Some(p.len() - 1)
    } else {
        last_slash(p.drop_last())
    }
}

/// The parent of a normalized path: everything before its last `/`, the
/// root for a path right under it, empty for a bare name, and none for the
/// root or an empty path.
pub open spec fn parent_of(p: Seq<char>) -> Option<Seq<char>> {
    if p.len() == 0 || p == seq!['/'] {
        None
    } else {
        match last_slash(p) {
            None => Some(Seq::empty()),
            Some(k) => if k == 0 { Some(seq!['/']) } else { Some(p.take(k)) },
        }
    }
}

pub proof fn lemma_last_slash_bounds(p: Seq<char>)
    ensures
        last_slash(p) matches Some(k) ==> 0 <= k < p.len() && p[k] == '/',
    decreases p.len(),
{
    if p.len() > 0 && p.last() != '/' {
        lemma_last_slash_bounds(p.drop_last());
    }
}

pub proof fn lemma_parent_shorter(p: Seq<char>)
    ensures
        parent_of(p) matches Some(d) ==> d.len() < p.len(),
{
    lemma_last_slash_bounds(p);
    if parent_of(p) matches Some(d) {
        if last_slash(p) == Some(0int) {
            assert(p != seq!['/']);
            assert(p.len() >= 1);
            if p.len() == 1 {
                assert(p =~= seq!['/']);
            }
        }
    }
}

/// Every ancestor of a normalized path, nearest first, up to the root of an
/// absolute path or the top name of a relative one.
pub open spec fn ancestors(p: Seq<char>) -> Seq<Seq<char>>
    decreases p.len(),
{
    match parent_of(p) {
        None => Seq::empty(),
        Some(d) => if d.len() == 0 || d.len() >= p.len() {
            Seq::empty()
        } else {
            seq![d] + ancestors(d)
        },
    }
}

/// The bytes of an optional content.
pub open spec fn opt_bytes(o: Option<Vec<u8>>) -> Option<Seq<u8>> {
    match o {
        Some(c) => Some(c@),
        None => None,
    }
}

/// Whether `q` is among the first `n` paths of a list.
pub open spec fn listed(paths: Seq<String>, n: int, q: Seq<char>) -> bool {
    exists|k: int| 0 <= k < n && #[trigger] paths[k]@ == q
}

/// A key that has an entry appears in the log.
pub proof fn lemma_last_entry_index<K, V>(log: Seq<(K, V)>, key: K)
    requires
        last_entry(log, key) is Some,
    ensures
        exists|j: int| 0 <= j < log.len() && #[trigger] log[j].0 == key,
    decreases log.len(),
{
    if log.last().0 == key {
        assert(log[log.len() - 1].0 == key);
    } else {
        lemma_last_entry_index(log.drop_last(), key);
        let j = choose|j: int| 0 <= j < log.drop_last().len() && #[trigger] log.drop_last()[j].0 == key;
        assert(log[j] == log.drop_last()[j]);
    }
}

/// What a key last recorded becomes after one more entry.
pub proof fn lemma_last_entry_push<K, V>(log: Seq<(K, V)>, k: K, v: V, q: K)
    ensures
        last_entry(log.push((k, v)), q) == (if q == k { Some(v) } else { last_entry(log, q) }),
{
    assert(log.push((k, v)).drop_last() =~= log);
}

/// The index of the last `/` in `p`.
fn find_last_slash(p: &str) -> (r: Option<usize>)
    ensures
        r matches Some(k) ==> last_slash(p@) == Some(k as int),
        r is None ==> last_slash(p@) is None,
{
    let n = p.unicode_len();
    let mut i: usize = n;
    assert(p@.take(n as int) =~= p@);
    while i > 0
        invariant
            i <= n,
            n == p@.len(),
            last_slash(p@) == last_slash(p@.take(i as int)),
        decreases i,
    {
        let c = p.get_char(i - 1);
        assert(p@.take(i as int).last() == c);
        if c == '/' {
            return Some(i - 1);
        }
        assert(p@.take(i as int).drop_last() =~= p@.take(i - 1));
        i = i - 1;
    }
    assert(p@.take(0) =~= Seq::<char>::empty());
    None
}

/// `p` without its trailing slashes.
pub fn normalize_path(p: &str) -> (r: String)
    ensures
        r@ == normalize(p@),
{
    let n = p.unicode_len();
    let mut k: usize = n;
    assert(p@.take(n as int) =~= p@);
    while k > 1 && p.get_char(k - 1) == '/'
        invariant
            k <= n,
            n == p@.len(),
            normalize(p@) == normalize(p@.take(k as int)),
        decreases k,
    {
        assert(p@.take(k as int).drop_last() =~= p@.take(k - 1));
        k = k - 1;
    }
    let r = p.substring_char(0, k).to_string();
    assert(r@ =~= p@.take(k as int));
    r
}

/// The parent of a normalized path.
pub fn parent_path(p: &str) -> (r: Option<String>)
    ensures
        r is None ==> parent_of(p@) is None,
        r matches Some(d) ==> parent_of(p@) == Some(d@),
{
    let n = p.unicode_len();
    proof {
        reveal_strlit("/");
        assert("/"@ =~= seq!['/']);
    }
    if n == 0 || str_eq(p, "/") {
        return None;
    }
    match find_last_slash(p) {
        None => Some(String::new()),
        Some(k) => {
            proof { lemma_last_slash_bounds(p@); }
            if k == 0 {
                Some(String::from_str("/"))
            } else {
                let d = p.substring_char(0, k).to_string();
                assert(d@ =~= p@.take(k as int));
                Some(d)
            }
        },
    }
}

/// Whether `p` lies at or below `base`, component by component.
pub open spec fn under(p: Seq<char>, base: Seq<char>) -> bool {
    p == base || (base == seq!['/'] && p.len() > 1 && p[0] == '/')
        || (p.len() > base.len() + 1 && p.take(base.len() as int) == base && p[base.len() as int] == '/')
}

/// Whether `p` lies at or below `base`.
pub fn is_under(p: &str, base: &str) -> (r: bool)
    ensures
        r == under(p@, base@),
{
    proof { reveal_strlit("/"); assert("/"@ =~= seq!['/']); }
    if str_eq(p, base) {
        return true;
    }
    let n = p.unicode_len();
    let m = base.unicode_len();
    if str_eq(base, "/") {
        proof {
            if p@.len() > 2 && p@.take(1) == base@ {
                assert(p@[0] == p@.take(1)[0]);
            }
        }
        return n > 1 && p.get_char(0) == '/';
    }
    if n > m && n - m > 1 && crate::paths::starts_with(p, base) && p.get_char(m) == '/' {
        return true;
    }
    false
}

/// What follows `base` and its separator in `p`; empty where `p` is no
/// longer than `base`.
pub open spec fn below_base(p: Seq<char>, base: Seq<char>) -> Seq<char> {
    if base.len() < p.len() && base == seq!['/'] {
        p.skip(1)
    } else if base.len() < p.len() {
        p.skip(base.len() as int + 1)
    } else {
        Seq::empty()
    }
}

/// The part of `p` below `base`, without the separator.
fn strip_base(p: &str, base: &str) -> (r: String)
    ensures
        r@ == below_base(p@, base@),
{
    proof { reveal_strlit("/"); assert("/"@ =~= seq!['/']); }
    let n = p.unicode_len();
    let m = base.unicode_len();
    if m < n && str_eq(base, "/") {
        return p.substring_char(1, n).to_string();
    }
    if m < n {
        p.substring_char(m + 1, n).to_string()
    } else {
        String::new()
    }
}

fn contains_text_item(list: &Vec<String>, item: &str) -> (r: bool)
    ensures
        r == exists|k: int| 0 <= k < list@.len() && #[trigger] list@[k]@ == item@,
{
    let mut i: usize = 0;
    while i < list.len()
        invariant
            0 <= i <= list@.len(),
            forall|k: int| 0 <= k < i ==> #[trigger] list@[k]@ != item@,
        decreases list@.len() - i,
    {
        if str_eq(list[i].as_str(), item) {
            return true;
        }
        i = i + 1;
    }
    false
}

impl SystemMock {
    pub closed spec fn file_log(&self) -> Seq<(Seq<char>, Option<Seq<u8>>)> {
        Seq::new(self.files@.len(), |i: int| (self.files@[i].0@, opt_bytes(self.files@[i].1)))
    }

    pub closed spec fn dir_log(&self) -> Seq<(Seq<char>, bool)> {
        Seq::new(self.dirs@.len(), |i: int| (self.dirs@[i].0@, self.dirs@[i].1))
    }

    /// The content of the file at a normalized path.
    pub open spec fn file(&self, p: Seq<char>) -> Option<Seq<u8>> {
        match last_entry(self.file_log(), p) {
            Some(c) => c,
            None => None,
        }
    }

    /// Whether a directory exists at a normalized path.
    pub open spec fn is_dir(&self, p: Seq<char>) -> bool {
        last_entry(self.dir_log(), p) == Some(true)
    }

    fn record_dir(&mut self, p: String)
        ensures
            final(self).dir_log() == old(self).dir_log().push((p@, true)),
            final(self).file_log() == old(self).file_log(),
    {
        let ghost p_view = p@;
        self.dirs.push((p, true));
        assert(self.dir_log() =~= old(self).dir_log().push((p_view, true)));
    }

    fn record_file(&mut self, p: String, content: Option<Vec<u8>>)
        ensures
            final(self).file_log() == old(self).file_log().push((p@, opt_bytes(content))),
            final(self).dir_log() == old(self).dir_log(),
    {
        let ghost p_view = p@;
        let ghost c_view = opt_bytes(content);
        self.files.push((p, content));
        assert(self.file_log() =~= old(self).file_log().push((p_view, c_view)));
    }

    /// Registers every ancestor of a normalized path as a directory, as on
    /// a real file system where the parents of a path exist.
    fn add_parent_dirs(&mut self, path: &str)
        ensures
            forall|d: Seq<char>| #[trigger] ancestors(path@).contains(d) ==> final(self).is_dir(d),
            forall|d: Seq<char>| !ancestors(path@).contains(d) ==> #[trigger] final(self).is_dir(d) == old(self).is_dir(d),
            final(self).file_log() == old(self).file_log(),
    {
        let mut current = path.to_string();
        let ghost done = Seq::<Seq<char>>::empty();
        loop
            invariant
                ancestors(path@) == done + ancestors(current@),
                forall|d: Seq<char>| #[trigger] done.contains(d) ==> self.is_dir(d),
                forall|d: Seq<char>| !done.contains(d) ==> #[trigger] self.is_dir(d) == old(self).is_dir(d),
                self.file_log() == old(self).file_log(),
            decreases current@.len(),
        {
            proof { lemma_parent_shorter(current@); }
            match parent_path(current.as_str()) {
                None => {
                    assert(ancestors(current@) =~= Seq::<Seq<char>>::empty());
                    assert(done =~= ancestors(path@));
                    return;
                },
                Some(dir) => {
                    if dir.unicode_len() == 0 {
                        assert(ancestors(current@) =~= Seq::<Seq<char>>::empty());
                        assert(done =~= ancestors(path@));
                        return;
                    }
                    let ghost dv = dir@;
                    let ghost before = *self;
                    self.record_dir(dir.clone());
                    proof {
                        assert forall|q: Seq<char>| #[trigger] self.is_dir(q) == (if q == dv { true } else { before.is_dir(q) }) by {
                            lemma_last_entry_push(before.dir_log(), dv, true, q);
                        }
                        assert(ancestors(current@) == seq![dv] + ancestors(dv));
                        assert(done + seq![dv] + ancestors(dv) =~= done + ancestors(current@));
                        assert forall|d: Seq<char>| #[trigger] (done + seq![dv]).contains(d) implies self.is_dir(d) by {
                            if d != dv {
                                let i = choose|i: int| 0 <= i < (done + seq![dv]).len() && (done + seq![dv])[i] == d;
                                assert(done[i] == d);
                                assert(done.contains(d));
                            }
                        }
                        assert forall|d: Seq<char>| !(done + seq![dv]).contains(d) implies #[trigger] self.is_dir(d) == old(self).is_dir(d) by {
                            assert((done + seq![dv])[done.len() as int] == dv);
                            if done.contains(d) {
                                let i = choose|i: int| 0 <= i < done.len() && done[i] == d;
                                assert((done + seq![dv])[i] == d);
                            }
                        }
                        done = done + seq![dv];
                    }
                    current = dir;
                },
            }
        }
    }

    /// Seeds a file, and with it its parent directories.
    pub fn add_file(self, path: &str, content: &[u8]) -> (r: SystemMock)
        ensures
            r.file(normalize(path@)) == Some(content@),
            forall|d: Seq<char>| #[trigger] ancestors(normalize(path@)).contains(d) ==> r.is_dir(d),
    {
        let mut s = self;
        let p = normalize_path(path);
        s.add_parent_dirs(p.as_str());
        let ghost mid = s;
        let ghost pv = p@;
        s.record_file(p, Some(vstd::slice::slice_to_vec(content)));
        proof {
            lemma_last_entry_push(mid.file_log(), pv, Some(content@), pv);
            assert forall|d: Seq<char>| #[trigger] ancestors(pv).contains(d) implies s.is_dir(d) by {
                assert(mid.is_dir(d));
            }
        }
        s
    }

    /// Seeds a directory, and with it its parents.
    pub fn add_dir(self, path: &str) -> (r: SystemMock)
        ensures
            r.is_dir(normalize(path@)),
            forall|d: Seq<char>| #[trigger] ancestors(normalize(path@)).contains(d) ==> r.is_dir(d),
    {
        let mut s = self;
        s.make_dir(path);
        s
    }

    fn make_dir(&mut self, path: &str)
        ensures
            final(self).is_dir(normalize(path@)),
            forall|d: Seq<char>| #[trigger] ancestors(normalize(path@)).contains(d) ==> final(self).is_dir(d),
            forall|d: Seq<char>| d != normalize(path@) && !ancestors(normalize(path@)).contains(d)
                ==> #[trigger] final(self).is_dir(d) == old(self).is_dir(d),
            final(self).file_log() == old(self).file_log(),
    {
        let p = normalize_path(path);
        self.add_parent_dirs(p.as_str());
        let ghost mid = *self;
        let ghost pv = p@;
        self.record_dir(p);
        proof {
            assert forall|q: Seq<char>| #[trigger] self.is_dir(q) == (if q == pv { true } else { mid.is_dir(q) }) by {
                lemma_last_entry_push(mid.dir_log(), pv, true, q);
            }
        }
    }

    /// The bytes written to a file, if it exists.
    pub fn get_written_file(&self, path: &str) -> (r: Option<Vec<u8>>)
        ensures
            r is None ==> self.file(normalize(path@)) is None,
            r matches Some(c) ==> self.file(normalize(path@)) == Some(c@),
    {
        let p = normalize_path(path);
        match self.find_file(p.as_str()) {
            Some(c) => Some(vstd::slice::slice_to_vec(c.as_slice())),
            None => None,
        }
    }

    fn find_file(&self, p: &str) -> (r: Option<&Vec<u8>>)
        ensures
            r is None ==> self.file(p@) is None,
            r matches Some(c) ==> self.file(p@) == Some(c@),
    {
        let ghost log = self.file_log();
        let mut i: usize = self.files.len();
        while i > 0
            invariant
                i <= self.files@.len(),
                log == self.file_log(),
                forall|j: int| i <= j < log.len() ==> #[trigger] log[j].0 != p@,
            decreases i,
        {
            if str_eq(self.files[i - 1].0.as_str(), p) {
                proof { lemma_last_entry_found(log, i - 1, p@); }
                return match &self.files[i - 1].1 {
                    Some(c) => Some(c),
                    None => None,
                };
            }
            i = i - 1;
        }
        proof { lemma_last_entry_skip(log, 0, p@); }
        None
    }

    fn find_dir(&self, p: &str) -> (r: bool)
        ensures
            r == self.is_dir(p@),
    {
        let ghost log = self.dir_log();
        let mut i: usize = self.dirs.len();
        while i > 0
            invariant
                i <= self.dirs@.len(),
                log == self.dir_log(),
                forall|j: int| i <= j < log.len() ==> #[trigger] log[j].0 != p@,
            decreases i,
        {
            if str_eq(self.dirs[i - 1].0.as_str(), p) {
                proof { lemma_last_entry_found(log, i - 1, p@); }
                return self.dirs[i - 1].1;
            }
            i = i - 1;
        }
        proof { lemma_last_entry_skip(log, 0, p@); }
        false
    }

    fn set_file(&mut self, path: &str, content: Vec<u8>)
        ensures
            final(self).file(normalize(path@)) == Some(content@),
            forall|q: Seq<char>| q != normalize(path@) ==> #[trigger] final(self).file(q) == old(self).file(q),
            final(self).dir_log() == old(self).dir_log(),
    {
        let p = normalize_path(path);
        let ghost pv = p@;
        let ghost cv = content@;
        self.record_file(p, Some(content));
        proof {
            assert forall|q: Seq<char>| #[trigger] self.file(q) == (if q == pv { Some(cv) } else { old(self).file(q) }) by {
                lemma_last_entry_push(old(self).file_log(), pv, Some(cv), q);
            }
        }
    }

    /// The current paths of the files (or, with `dirs`, the directories)
    /// that `select` keeps, each once.
    fn current_paths(&self, dirs: bool, base: &str, direct: bool) -> (r: Vec<String>)
        ensures
            forall|k: int| 0 <= k < r@.len() ==> self.path_selected(#[trigger] r@[k]@, dirs, base@, direct),
            forall|a: int, b: int| 0 <= a < b < r@.len() ==> r@[a]@ != r@[b]@,
            forall|q: Seq<char>| self.path_selected(q, dirs, base@, direct)
                ==> exists|k: int| 0 <= k < r@.len() && #[trigger] r@[k]@ == q,
    {
        let ghost keys: Seq<Seq<char>> = if dirs {
            Seq::new(self.dirs@.len(), |j: int| self.dirs@[j].0@)
        } else {
            Seq::new(self.files@.len(), |j: int| self.files@[j].0@)
        };
        let mut out: Vec<String> = Vec::new();
        let n = if dirs { self.dirs.len() } else { self.files.len() };
        let mut i: usize = 0;
        while i < n
            invariant
                0 <= i <= n,
                n == (if dirs { self.dirs@.len() } else { self.files@.len() }),
                keys.len() == n,
                keys == (if dirs {
                    Seq::new(self.dirs@.len(), |j: int| self.dirs@[j].0@)
                } else {
                    Seq::new(self.files@.len(), |j: int| self.files@[j].0@)
                }),
                forall|k: int| 0 <= k < out@.len() ==> self.path_selected(#[trigger] out@[k]@, dirs, base@, direct),
                forall|a: int, b: int| 0 <= a < b < out@.len() ==> out@[a]@ != out@[b]@,
                forall|j: int| 0 <= j < i && self.path_selected(#[trigger] keys[j], dirs, base@, direct)
                    ==> exists|k: int| 0 <= k < out@.len() && #[trigger] out@[k]@ == keys[j],
            decreases n - i,
        {
            let key: &str = if dirs { self.dirs[i].0.as_str() } else { self.files[i].0.as_str() };
            assert(key@ == keys[i as int]);
            let present = if dirs { self.find_dir(key) } else { self.find_file(key).is_some() };
            let selected = if direct {
                match parent_path(key) {
                    Some(p) => str_eq(p.as_str(), base),
                    None => false,
                }
            } else {
                is_under(key, base)
            };
            let ghost before = out@;
            if present && selected && !contains_text_item(&out, key) {
                out.push(key.to_string());
                assert(out@[before.len() as int]@ == key@);
                assert forall|k: int| 0 <= k < out@.len() implies self.path_selected(#[trigger] out@[k]@, dirs, base@, direct) by {
                    if k < before.len() {
                        assert(out@[k] == before[k]);
                    }
                }
                assert forall|a: int, b: int| 0 <= a < b < out@.len() implies out@[a]@ != out@[b]@ by {
                    if b < before.len() {
                        assert(out@[a] == before[a] && out@[b] == before[b]);
                    } else {
                        assert(out@[a] == before[a]);
                    }
                }
            }
            assert forall|j: int| 0 <= j < i + 1 && self.path_selected(#[trigger] keys[j], dirs, base@, direct)
                implies exists|k: int| 0 <= k < out@.len() && #[trigger] out@[k]@ == keys[j] by {
                if j < i {
                    let k = choose|k: int| 0 <= k < before.len() && #[trigger] before[k]@ == keys[j];
                    assert(out@[k] == before[k]);
                } else if !(exists|k: int| 0 <= k < before.len() && #[trigger] before[k]@ == keys[j]) {
                    assert(out@[before.len() as int]@ == keys[j]);
                } else {
                    let k = choose|k: int| 0 <= k < before.len() && #[trigger] before[k]@ == keys[j];
                    assert(out@[k] == before[k]);
                }
            }
            i = i + 1;
        }
        assert forall|q: Seq<char>| self.path_selected(q, dirs, base@, direct)
            implies exists|k: int| 0 <= k < out@.len() && #[trigger] out@[k]@ == q by {
            if dirs {
                lemma_last_entry_index(self.dir_log(), q);
                let j = choose|j: int| 0 <= j < self.dir_log().len() && #[trigger] self.dir_log()[j].0 == q;
                assert(keys[j] == q);
            } else {
                assert(last_entry(self.file_log(), q) is Some);
                lemma_last_entry_index(self.file_log(), q);
                let j = choose|j: int| 0 <= j < self.file_log().len() && #[trigger] self.file_log()[j].0 == q;
                assert(keys[j] == q);
            }
        }
        out
    }

    /// Whether `p` is a file (or, with `dirs`, a directory) of the mock
    /// that lies right under `base` (or, unless `direct`, anywhere below).
    pub open spec fn path_selected(&self, p: Seq<char>, dirs: bool, base: Seq<char>, direct: bool) -> bool {
        &&& if dirs { self.is_dir(p) } else { self.file(p) is Some }
        &&& if direct { parent_of(p) == Some(base) } else { under(p, base) }
    }

    fn fs_error(what: &str, path: &str) -> (r: Error)
        ensures
            r matches Error::FS(m) && m@ == what@ + " '"@ + path@ + "'"@,
    {
        let mut m = String::from_str(what);
        m.append(" '");
        m.append(path);
        m.append("'");
        Error::FS(m)
    }
}

/// Whether `q` is a file or directory right under the directory `p`.
pub open spec fn child_of(fs: &SystemMock, p: Seq<char>, q: Seq<char>) -> bool {
    (fs.file(q) is Some || fs.is_dir(q)) && parent_of(q) == Some(p)
}

impl FileSystem for SystemMock {
    open spec fn path_exists(&self, path: Seq<char>) -> bool {
        self.file(normalize(path)) is Some || self.is_dir(normalize(path))
    }

    open spec fn dir_exists(&self, path: Seq<char>) -> bool {
        self.is_dir(normalize(path))
    }

    /// A listing holds the children of the directory and nothing else.
    open spec fn lists(&self, path: Seq<char>, entries: Seq<Seq<char>>) -> bool {
        &&& forall|k: int| 0 <= k < entries.len() ==> child_of(self, normalize(path), #[trigger] entries[k])
        &&& forall|q: Seq<char>| #[trigger] child_of(self, normalize(path), q) ==> entries.contains(q)
    }

    open spec fn listing_fails(&self, path: Seq<char>) -> bool {
        !self.is_dir(normalize(path))
    }

    open spec fn file_text(&self, path: Seq<char>) -> Option<Seq<char>> {
        match self.file(normalize(path)) {
            Some(c) => if valid_utf8(c) { Some(decode_utf8(c)) } else { None },
            None => None,
        }
    }

    /// The mock has no notion of free space.
    open spec fn free_space(&self, path: Seq<char>) -> Option<u64> {
        None
    }

    fn exists_path(&self, path: &str) -> (r: bool)
        ensures
            r == (self.file(normalize(path@)) is Some || self.is_dir(normalize(path@))),
    {
        let p = normalize_path(path);
        self.find_file(p.as_str()).is_some() || self.find_dir(p.as_str())
    }

    fn exists_dir(&self, path: &str) -> (r: bool)
        ensures
            r == self.is_dir(normalize(path@)),
    {
        let p = normalize_path(path);
        self.find_dir(p.as_str())
    }

    /// The length of a file; for a directory, the lengths of the files
    /// below it added up, saturating at the largest value.
    fn get_path_size(&self, path: &str) -> (r: u64)
        ensures
            self.file(normalize(path@)) matches Some(c) ==> r == c.len(),
    {
        let p = normalize_path(path);
        match self.find_file(p.as_str()) {
            Some(c) => c.len() as u64,
            None => {
                let below = self.current_paths(false, p.as_str(), false);
                let mut total: u64 = 0;
                let mut i: usize = 0;
                while i < below.len()
                    invariant
                        0 <= i <= below@.len(),
                    decreases below@.len() - i,
                {
                    if let Some(c) = self.find_file(below[i].as_str()) {
                        total = total.saturating_add(c.len() as u64);
                    }
                    i = i + 1;
                }
                total
            },
        }
    }

    /// The mock has no notion of free space.
    fn get_available_space(&self, path: &str) -> (r: Option<u64>)
        ensures
            r is None,
    {
        None
    }

    fn create_dir(&mut self, path: &str) -> (r: Result<(), Error>)
        ensures
            r is Ok,
            final(self).is_dir(normalize(path@)),
            forall|d: Seq<char>| #[trigger] ancestors(normalize(path@)).contains(d) ==> final(self).is_dir(d),
            final(self).file_log() == old(self).file_log(),
    {
        self.make_dir(path);
        Ok(())
    }

    fn create_writable_dir(&mut self, path: &str) -> (r: Result<(), Error>)
        ensures
            r is Ok,
            final(self).is_dir(normalize(path@)),
            final(self).file_log() == old(self).file_log(),
    {
        self.make_dir(path);
        Ok(())
    }

    /// Removes a directory with everything below it.
    fn remove_dir(&mut self, path: &str) -> (r: Result<(), Error>)
        ensures
            r is Ok,
            !final(self).is_dir(normalize(path@)),
            forall|q: Seq<char>| under(q, normalize(path@)) ==> #[trigger] final(self).file(q) is None
                && !final(self).is_dir(q),
            forall|q: Seq<char>| !under(q, normalize(path@)) ==> #[trigger] final(self).file(q) == old(self).file(q)
                && final(self).is_dir(q) == old(self).is_dir(q),
    {
        let p = normalize_path(path);
        let files = self.current_paths(false, p.as_str(), false);
        let dirs = self.current_paths(true, p.as_str(), false);
        let ghost start = *self;
        let ghost pv = p@;
        let mut i: usize = 0;
        while i < files.len()
            invariant
                0 <= i <= files@.len(),
                forall|q: Seq<char>| listed(files@, i as int, q) ==> #[trigger] self.file(q) is None,
                forall|q: Seq<char>| !listed(files@, i as int, q) ==> #[trigger] self.file(q) == start.file(q),
                self.dir_log() == start.dir_log(),
            decreases files@.len() - i,
        {
            let ghost before = *self;
            let key = files[i].clone();
            let ghost kv = key@;
            self.record_file(key, None);
            proof {
                assert forall|q: Seq<char>| listed(files@, i + 1, q) implies #[trigger] self.file(q) is None by {
                    lemma_last_entry_push(before.file_log(), kv, None, q);
                    assert(self.file(q) == (if q == kv { None } else { before.file(q) }));
                    if q != kv {
                        let k = choose|k: int| 0 <= k < i + 1 && #[trigger] files@[k]@ == q;
                        assert(listed(files@, i as int, q));
                    }
                }
                assert forall|q: Seq<char>| !listed(files@, i + 1, q) implies #[trigger] self.file(q) == start.file(q) by {
                    lemma_last_entry_push(before.file_log(), kv, None, q);
                    assert(self.file(q) == (if q == kv { None } else { before.file(q) }));
                    assert(files@[i as int]@ == kv);
                    if listed(files@, i as int, q) {
                        let k = choose|k: int| 0 <= k < i && #[trigger] files@[k]@ == q;
                        assert(listed(files@, i + 1, q));
                    }
                }
            }
            i = i + 1;
        }
        let ghost mid = *self;
        let mut j: usize = 0;
        while j < dirs.len()
            invariant
                0 <= j <= dirs@.len(),
                self.file_log() == mid.file_log(),
                forall|q: Seq<char>| listed(dirs@, j as int, q) ==> !#[trigger] self.is_dir(q),
                forall|q: Seq<char>| !listed(dirs@, j as int, q) ==> #[trigger] self.is_dir(q) == start.is_dir(q),
            decreases dirs@.len() - j,
        {
            let ghost before = *self;
            let ghost kv = dirs@[j as int]@;
            self.dirs.push((dirs[j].clone(), false));
            proof {
                assert(self.dir_log() =~= before.dir_log().push((kv, false)));
                assert forall|q: Seq<char>| listed(dirs@, j + 1, q) implies !#[trigger] self.is_dir(q) by {
                    lemma_last_entry_push(before.dir_log(), kv, false, q);
                    assert(self.is_dir(q) == (if q == kv { false } else { before.is_dir(q) }));
                    if q != kv {
                        let k = choose|k: int| 0 <= k < j + 1 && #[trigger] dirs@[k]@ == q;
                        assert(listed(dirs@, j as int, q));
                    }
                }
                assert forall|q: Seq<char>| !listed(dirs@, j + 1, q) implies #[trigger] self.is_dir(q) == start.is_dir(q) by {
                    lemma_last_entry_push(before.dir_log(), kv, false, q);
                    assert(self.is_dir(q) == (if q == kv { false } else { before.is_dir(q) }));
                    assert(dirs@[j as int]@ == kv);
                    if listed(dirs@, j as int, q) {
                        let k = choose|k: int| 0 <= k < j && #[trigger] dirs@[k]@ == q;
                        assert(listed(dirs@, j + 1, q));
                    }
                }
            }
            j = j + 1;
        }
        let ghost before = *self;
        self.dirs.push((p, false));
        proof {
            assert(self.dir_log() =~= before.dir_log().push((pv, false)));
            assert forall|q: Seq<char>| #[trigger] self.is_dir(q) == (if q == pv { false } else { before.is_dir(q) }) by {
                lemma_last_entry_push(before.dir_log(), pv, false, q);
            }
            assert(under(pv, pv));
            assert forall|q: Seq<char>| under(q, pv) implies #[trigger] self.file(q) is None && !self.is_dir(q) by {
                assert(self.file(q) == mid.file(q));
                assert(self.is_dir(q) == (if q == pv { false } else { before.is_dir(q) }));
                if start.file(q) is Some {
                    assert(start.path_selected(q, false, pv, false));
                    let k = choose|k: int| 0 <= k < files@.len() && #[trigger] files@[k]@ == q;
                    assert(listed(files@, files@.len() as int, q));
                }
                if start.is_dir(q) {
                    assert(start.path_selected(q, true, pv, false));
                    let k = choose|k: int| 0 <= k < dirs@.len() && #[trigger] dirs@[k]@ == q;
                    assert(listed(dirs@, dirs@.len() as int, q));
                }
            }
            assert forall|q: Seq<char>| !under(q, pv) implies #[trigger] self.file(q) == start.file(q)
                && self.is_dir(q) == start.is_dir(q) by {
                assert(self.file(q) == mid.file(q));
                assert(self.is_dir(q) == (if q == pv { false } else { before.is_dir(q) }));
                if listed(files@, files@.len() as int, q) {
                    let k = choose|k: int| 0 <= k < files@.len() && #[trigger] files@[k]@ == q;
                    assert(start.path_selected(files@[k]@, false, pv, false));
                }
                if listed(dirs@, dirs@.len() as int, q) {
                    let k = choose|k: int| 0 <= k < dirs@.len() && #[trigger] dirs@[k]@ == q;
                    assert(start.path_selected(dirs@[k]@, true, pv, false));
                }
            }
        }
        Ok(())
    }

    /// The files, then the directories, right under a directory.
    fn read_dir(&self, path: &str) -> (r: Result<Vec<String>, Error>)
        ensures
            !self.is_dir(normalize(path@)) ==> r is Err,
            self.is_dir(normalize(path@)) ==> r is Ok,
            r matches Ok(v) ==> forall|k: int| 0 <= k < v@.len()
                ==> (self.file(#[trigger] v@[k]@) is Some || self.is_dir(v@[k]@)) && parent_of(v@[k]@) == Some(normalize(path@)),
            r matches Ok(v) ==> forall|q: Seq<char>| (self.file(q) is Some || self.is_dir(q)) && parent_of(q) == Some(normalize(path@))
                ==> exists|k: int| 0 <= k < v@.len() && #[trigger] v@[k]@ == q,
    {
        let p = normalize_path(path);
        if !self.find_dir(p.as_str()) {
            return Err(Self::fs_error("Cannot read directory", path));
        }
        let files_below = self.current_paths(false, p.as_str(), true);
        assert forall|k: int| 0 <= k < files_below@.len() implies (self.file(#[trigger] files_below@[k]@) is Some
            || self.is_dir(files_below@[k]@)) && parent_of(files_below@[k]@) == Some(p@) by {
            assert(self.path_selected(files_below@[k]@, false, p@, true));
        }
        let mut children = files_below;
        let dirs = self.current_paths(true, p.as_str(), true);
        let mut i: usize = 0;
        while i < dirs.len()
            invariant
                0 <= i <= dirs@.len(),
                p@ == normalize(path@),
                forall|k: int| 0 <= k < dirs@.len() ==> self.path_selected(#[trigger] dirs@[k]@, true, p@, true),
                forall|k: int| 0 <= k < children@.len() ==> (self.file(#[trigger] children@[k]@) is Some
                    || self.is_dir(children@[k]@)) && parent_of(children@[k]@) == Some(p@),
                forall|q: Seq<char>| self.path_selected(q, false, p@, true)
                    ==> exists|k: int| 0 <= k < children@.len() && #[trigger] children@[k]@ == q,
                forall|q: Seq<char>| self.path_selected(q, true, p@, true)
                    ==> exists|k: int| 0 <= k < dirs@.len() && #[trigger] dirs@[k]@ == q,
                forall|k: int| #![trigger dirs@[k]] 0 <= k < i ==> exists|c: int| 0 <= c < children@.len() && #[trigger] children@[c]@ == dirs@[k]@,
            decreases dirs@.len() - i,
        {
            let ghost before = children@;
            children.push(dirs[i].clone());
            assert(children@[before.len() as int]@ == dirs@[i as int]@);
            assert forall|q: Seq<char>| self.path_selected(q, false, p@, true)
                implies exists|k: int| 0 <= k < children@.len() && #[trigger] children@[k]@ == q by {
                let k = choose|k: int| 0 <= k < before.len() && #[trigger] before[k]@ == q;
                assert(children@[k] == before[k]);
            }
            assert forall|k: int| #![trigger dirs@[k]] 0 <= k < i + 1 implies exists|c: int| 0 <= c < children@.len() && #[trigger] children@[c]@ == dirs@[k]@ by {
                if k < i {
                    let c = choose|c: int| 0 <= c < before.len() && #[trigger] before[c]@ == dirs@[k]@;
                    assert(children@[c] == before[c]);
                } else {
                    assert(children@[before.len() as int]@ == dirs@[k]@);
                }
            }
            assert(self.path_selected(dirs@[i as int]@, true, p@, true));
            assert forall|k: int| 0 <= k < children@.len() implies (self.file(#[trigger] children@[k]@) is Some
                || self.is_dir(children@[k]@)) && parent_of(children@[k]@) == Some(p@) by {
                if k < before.len() {
                    assert(children@[k] == before[k]);
                }
            }
            i = i + 1;
        }
        assert forall|q: Seq<char>| (self.file(q) is Some || self.is_dir(q)) && parent_of(q) == Some(normalize(path@))
            implies exists|k: int| 0 <= k < children@.len() && #[trigger] children@[k]@ == q by {
            if self.file(q) is Some {
                assert(self.path_selected(q, false, p@, true));
            } else {
                assert(self.path_selected(q, true, p@, true));
                let k = choose|k: int| 0 <= k < dirs@.len() && #[trigger] dirs@[k]@ == q;
                assert(0 <= k < i);
            }
        }
        proof {
            let sv = string_views(children@);
            assert forall|k: int| 0 <= k < sv.len() implies child_of(self, normalize(path@), #[trigger] sv[k]) by {
                assert(sv[k] == children@[k]@);
            }
            assert forall|q: Seq<char>| #[trigger] child_of(self, normalize(path@), q) implies sv.contains(q) by {
                let k = choose|k: int| 0 <= k < children@.len() && #[trigger] children@[k]@ == q;
                assert(sv[k] == q);
            }
        }
        Ok(children)
    }

    fn create_file(&mut self, path: &str) -> (r: Result<(), Error>)
        ensures
            r is Ok,
            final(self).file(normalize(path@)) == Some(Seq::<u8>::empty()),
            forall|q: Seq<char>| q != normalize(path@) ==> #[trigger] final(self).file(q) == old(self).file(q),
    {
        let v: Vec<u8> = Vec::new();
        self.set_file(path, v);
        Ok(())
    }

    fn append_file(&mut self, path: &str, contents: &[u8]) -> (r: Result<(), Error>)
        ensures
            r is Ok,
            final(self).file(normalize(path@)) == Some(match old(self).file(normalize(path@)) {
                Some(c) => c,
                None => Seq::<u8>::empty(),
            } + contents@),
            forall|q: Seq<char>| q != normalize(path@) ==> #[trigger] final(self).file(q) == old(self).file(q),
    {
        let p = normalize_path(path);
        let mut content: Vec<u8> = match self.find_file(p.as_str()) {
            Some(c) => vstd::slice::slice_to_vec(c.as_slice()),
            None => Vec::new(),
        };
        let ghost start = content@;
        let mut i: usize = 0;
        while i < contents.len()
            invariant
                0 <= i <= contents@.len(),
                content@ == start + contents@.take(i as int),
            decreases contents@.len() - i,
        {
            content.push(contents[i]);
            assert(content@ =~= start + contents@.take(i as int + 1));
            i = i + 1;
        }
        assert(contents@.take(contents@.len() as int) =~= contents@);
        self.set_file(path, content);
        Ok(())
    }

    fn read_file(&self, path: &str) -> (r: Result<Vec<u8>, Error>)
        ensures
            self.file(normalize(path@)) matches Some(c) ==> r matches Ok(v) && v@ == c,
            self.file(normalize(path@)) is None ==> r is Err,
    {
        match self.get_written_file(path) {
            Some(c) => Ok(c),
            None => Err(Self::fs_error("Cannot read file", path)),
        }
    }

    /// The content of a file as text; content that is no UTF-8 fails.
    fn read_file_to_string(&self, path: &str) -> (r: Result<String, Error>)
        ensures
            r matches Ok(s) ==> (self.file(normalize(path@)) matches Some(c) && valid_utf8(c) && s@ == decode_utf8(c)),
            self.file(normalize(path@)) matches Some(c) && valid_utf8(c) ==> r is Ok,
            self.file(normalize(path@)) matches Some(c) && !valid_utf8(c) ==> r is Err,
            self.file(normalize(path@)) is None ==> r is Err,
    {
        match self.get_written_file(path) {
            Some(c) => match text_from_utf8(c.as_slice()) {
                Some(s) => Ok(s),
                None => Err(Self::fs_error("Cannot read file", path)),
            },
            None => Err(Self::fs_error("Cannot read file", path)),
        }
    }

    fn write_file(&mut self, path: &str, contents: &[u8]) -> (r: Result<(), Error>)
        ensures
            r is Ok,
            final(self).file(normalize(path@)) == Some(contents@),
            forall|q: Seq<char>| q != normalize(path@) ==> #[trigger] final(self).file(q) == old(self).file(q),
    {
        self.set_file(path, vstd::slice::slice_to_vec(contents));
        Ok(())
    }

    fn write_secret_file(&mut self, path: &str, contents: &[u8]) -> (r: Result<(), Error>)
        ensures
            r is Ok,
            final(self).file(normalize(path@)) == Some(contents@),
    {
        self.set_file(path, vstd::slice::slice_to_vec(contents));
        Ok(())
    }

    /// Moves a file, or a directory with everything below it, to a new
    /// path; a missing source fails.
    fn rename_file(&mut self, from: &str, to: &str) -> (r: Result<(), Error>)
        ensures
            old(self).file(normalize(from@)) is None && !old(self).is_dir(normalize(from@)) ==> r is Err,
            old(self).file(normalize(from@)) is Some || old(self).is_dir(normalize(from@)) ==> r is Ok,
            old(self).file(normalize(from@)) is Some
                && (forall|q: Seq<char>| q != normalize(from@) && under(q, normalize(from@)) ==> #[trigger] old(self).file(q) is None)
                ==> final(self).file(normalize(to@)) == old(self).file(normalize(from@))
                    && (normalize(to@) != normalize(from@) ==> final(self).file(normalize(from@)) is None),
    {
        let src = normalize_path(from);
        let dst = normalize_path(to);
        let has_file = self.find_file(src.as_str()).is_some();
        let was_dir = self.find_dir(src.as_str());
        if !has_file && !was_dir {
            return Err(Self::fs_error("Cannot rename file", from));
        }
        let ghost sv = src@;
        let ghost dv = dst@;
        let ghost start = *self;
        let ghost plain = start.file(sv) is Some
            && (forall|q: Seq<char>| q != sv && under(q, sv) ==> #[trigger] start.file(q) is None);
        let ghost c: Seq<u8> = match start.file(sv) { Some(c) => c, None => Seq::empty() };
        let nested_files = self.current_paths(false, src.as_str(), false);
        let nested_dirs = self.current_paths(true, src.as_str(), false);
        proof {
            if plain {
                assert(under(sv, sv));
                assert(self.path_selected(sv, false, sv, false));
                let k0 = choose|k: int| 0 <= k < nested_files@.len() && #[trigger] nested_files@[k]@ == sv;
                assert forall|k: int| 0 <= k < nested_files@.len() implies #[trigger] nested_files@[k]@ == sv by {
                    assert(self.path_selected(nested_files@[k]@, false, sv, false));
                }
                if nested_files@.len() > 1 {
                    assert(nested_files@[0]@ == sv && nested_files@[1]@ == sv);
                    assert(false);
                }
                assert(nested_files@.len() == 1);
            }
        }
        let mut moved_files: Vec<(String, Vec<u8>)> = Vec::new();
        let mut i: usize = 0;
        while i < nested_files.len()
            invariant
                0 <= i <= nested_files@.len(),
                *self == start,
                src@ == sv && dst@ == dv,
                plain ==> nested_files@.len() == 1 && nested_files@[0]@ == sv && start.file(sv) == Some(c),
                plain && i == 0 ==> moved_files@.len() == 0,
                plain && i == 1 ==> moved_files@.len() == 1 && moved_files@[0].0@ == dv && moved_files@[0].1@ == c,
            decreases nested_files@.len() - i,
        {
            if let Some(c) = self.find_file(nested_files[i].as_str()) {
                let content = vstd::slice::slice_to_vec(c.as_slice());
                let target = if str_eq(nested_files[i].as_str(), src.as_str()) {
                    dst.clone()
                } else {
                    path_join(dst.as_str(), strip_base(nested_files[i].as_str(), src.as_str()).as_str())
                };
                moved_files.push((target, content));
            }
            i = i + 1;
        }
        let mut j: usize = 0;
        while j < nested_files.len()
            invariant
                0 <= j <= nested_files@.len(),
                src@ == sv && dst@ == dv,
                plain ==> nested_files@.len() == 1 && nested_files@[0]@ == sv,
                plain && j == 1 ==> self.file(sv) is None,
                plain ==> forall|q: Seq<char>| q != sv ==> #[trigger] self.file(q) == start.file(q),
            decreases nested_files@.len() - j,
        {
            let ghost before = *self;
            let key = nested_files[j].clone();
            let ghost kv = key@;
            self.record_file(key, None);
            proof {
                assert forall|q: Seq<char>| #[trigger] self.file(q) == (if q == kv { None } else { before.file(q) }) by {
                    lemma_last_entry_push(before.file_log(), kv, None, q);
                }
            }
            j = j + 1;
        }
        let ghost after_files = *self;
        let mut k: usize = 0;
        while k < nested_dirs.len()
            invariant
                0 <= k <= nested_dirs@.len(),
                self.file_log() == after_files.file_log(),
            decreases nested_dirs@.len() - k,
        {
            self.dirs.push((nested_dirs[k].clone(), false));
            let target = if str_eq(nested_dirs[k].as_str(), src.as_str()) {
                dst.clone()
            } else {
                path_join(dst.as_str(), strip_base(nested_dirs[k].as_str(), src.as_str()).as_str())
            };
            self.dirs.push((target, true));
            k = k + 1;
        }
        let mut m: usize = 0;
        while m < moved_files.len()
            invariant
                0 <= m <= moved_files@.len(),
                plain ==> moved_files@.len() == 1 && moved_files@[0].0@ == dv && moved_files@[0].1@ == c,
                plain && m == 0 ==> self.file(sv) is None,
                plain && m == 1 ==> self.file(dv) == Some(c) && (dv != sv ==> self.file(sv) is None),
            decreases moved_files@.len() - m,
        {
            let ghost before = *self;
            let (target, content) = (moved_files[m].0.clone(), vstd::slice::slice_to_vec(moved_files[m].1.as_slice()));
            let ghost tv = target@;
            let ghost cv = content@;
            self.record_file(target, Some(content));
            proof {
                lemma_last_entry_push(before.file_log(), tv, Some(cv), dv);
                lemma_last_entry_push(before.file_log(), tv, Some(cv), sv);
            }
            m = m + 1;
        }
        Ok(())
    }

    fn remove_file(&mut self, path: &str) -> (r: Result<(), Error>)
        ensures
            old(self).file(normalize(path@)) is None ==> r is Err,
            old(self).file(normalize(path@)) is Some ==> r is Ok && final(self).file(normalize(path@)) is None,
    {
        let p = normalize_path(path);
        if self.find_file(p.as_str()).is_none() {
            return Err(Self::fs_error("Cannot delete file", path));
        }
        let ghost pv = p@;
        let ghost before = *self;
        self.record_file(p, None);
        proof { lemma_last_entry_push(before.file_log(), pv, None, pv); }
        Ok(())
    }
}

} // verus!
