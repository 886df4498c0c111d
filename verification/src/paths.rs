use vstd::prelude::*;
use vstd::string::{StrSliceExecFns, StringExecFns};

verus! {

/// `base` joined with `segment` as `PathBuf::join` does on Unix: an
/// absolute segment replaces the base, and a separator is put between the
/// two unless the base is empty or already ends with one.
pub open spec fn join_path(base: Seq<char>, segment: Seq<char>) -> Seq<char> {
    if segment.len() > 0 && segment[0] == '/' {
        segment
    } else if base.len() == 0 {
        segment
    } else if base.last() == '/' {
        base + segment
    } else {
        base + seq!['/'] + segment
    }
}

/// Whether `s` starts with `prefix`.
pub open spec fn has_prefix(s: Seq<char>, prefix: Seq<char>) -> bool {
    prefix.len() <= s.len() && s.take(prefix.len() as int) == prefix
}

/// Whether `s` ends with `suffix`.
pub open spec fn has_suffix(s: Seq<char>, suffix: Seq<char>) -> bool {
    suffix.len() <= s.len() && s.skip(s.len() - suffix.len()) == suffix
}

/// Whether `s` holds `part` somewhere.
pub open spec fn contains_text(s: Seq<char>, part: Seq<char>) -> bool {
    exists|i: int| 0 <= i <= s.len() - part.len() && #[trigger] s.subrange(i, i + part.len()) == part
}

/// Joins a path and a segment.
pub fn path_join(base: &str, segment: &str) -> (r: String)
    ensures
        r@ == join_path(base@, segment@),
{
    proof { reveal_strlit("/"); }
    let n = segment.unicode_len();
    if n > 0 && segment.get_char(0) == '/' {
        return segment.to_string();
    }
    let m = base.unicode_len();
    if m == 0 {
        return segment.to_string();
    }
    let mut r = base.to_string();
    if base.get_char(m - 1) != '/' {
        r.append("/");
    }
    r.append(segment);
    r
}

/// Whether `s` starts with `prefix`.
pub fn starts_with(s: &str, prefix: &str) -> (r: bool)
    ensures
        r == has_prefix(s@, prefix@),
{
    let n = prefix.unicode_len();
    let m = s.unicode_len();
    if n > m {
        return false;
    }
    let mut i: usize = 0;
    while i < n
        invariant
            n == prefix@.len(),
            m == s@.len(),
            n <= m,
            0 <= i <= n,
            forall|j: int| 0 <= j < i ==> s@[j] == prefix@[j],
        decreases n - i,
    {
        if s.get_char(i) != prefix.get_char(i) {
            assert(s@.take(n as int)[i as int] != prefix@[i as int]);
            return false;
        }
        i = i + 1;
    }
    assert(s@.take(n as int) =~= prefix@);
    true
}

/// Whether `s` ends with `suffix`.
pub fn ends_with(s: &str, suffix: &str) -> (r: bool)
    ensures
        r == has_suffix(s@, suffix@),
{
    let n = suffix.unicode_len();
    let m = s.unicode_len();
    if n > m {
        return false;
    }
    let off = m - n;
    let mut i: usize = 0;
    while i < n
        invariant
            n == suffix@.len(),
            m == s@.len(),
            off == m - n,
            0 <= i <= n,
            forall|j: int| 0 <= j < i ==> s@[off + j] == suffix@[j],
        decreases n - i,
    {
        if s.get_char(off + i) != suffix.get_char(i) {
            assert(s@.skip(off as int)[i as int] != suffix@[i as int]);
            return false;
        }
        i = i + 1;
    }
    assert(s@.skip(off as int) =~= suffix@);
    true
}

/// Whether `s` holds `part` somewhere.
pub fn contains(s: &str, part: &str) -> (r: bool)
    ensures
        r == contains_text(s@, part@),
{
    let n = part.unicode_len();
    let m = s.unicode_len();
    if n > m {
        return false;
    }
    let mut i: usize = 0;
    while i <= m - n
        invariant
            n == part@.len(),
            m == s@.len(),
            n <= m,
            0 <= i <= m - n + 1,
            forall|k: int| 0 <= k < i ==> #[trigger] s@.subrange(k, k + n) != part@,
        decreases m - n + 1 - i,
    {
        let window = s.substring_char(i, i + n);
        if crate::text::str_eq(window, part) {
            return true;
        }
        if i == m - n {
            return false;
        }
        i = i + 1;
    }
    false
}

} // verus!
