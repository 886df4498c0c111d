use vstd::prelude::*;
use vstd::string::{StrSliceExecFns, StringExecFns};
use crate::models::port_forward::{digit_run, digit_run_from, dotted_string, dotted_text, lemma_digit_run_bound, octet_value};
use crate::text::parse_unsigned_text;

verus! {

/// Whether `c` is a hexadecimal digit, in either case.
pub open spec fn is_hex(c: char) -> bool {
    ('0' <= c <= '9') || ('a' <= c <= 'f') || ('A' <= c <= 'F')
}

/// The value of a hexadecimal digit.
pub open spec fn hex_value(c: char) -> nat {
    if '0' <= c <= '9' {
        (c as u32 - '0' as u32) as nat
    } else if 'a' <= c <= 'f' {
        (c as u32 - 'a' as u32 + 10) as nat
    } else {
        (c as u32 - 'A' as u32 + 10) as nat
    }
}

/// The number of hexadecimal digits `t` starts with.
pub open spec fn hex_run(t: Seq<char>) -> nat
    decreases t.len(),
{
    if t.len() > 0 && is_hex(t[0]) { 1 + hex_run(t.drop_first()) } else { 0 }
}

/// The value of a run of hexadecimal digits.
pub open spec fn hex_digits_value(s: Seq<char>) -> nat
    decreases s.len(),
{
    if s.len() == 0 { 0 } else { hex_digits_value(s.drop_last()) * 16 + hex_value(s.last()) }
}

/// A group of one to four hexadecimal digits at `p`, and where it ends.
pub open spec fn read_hex_at(t: Seq<char>, p: int) -> Option<(u16, int)> {
    let n = hex_run(t.skip(p));
    if 1 <= n <= 4 { Some((hex_digits_value(t.subrange(p, p + n)) as u16, p + n)) } else { None }
}

/// An octet in decimal at `p`, and where it ends.
pub open spec fn read_octet_at(t: Seq<char>, p: int) -> Option<(u8, int)> {
    let n = digit_run(t.skip(p));
    match octet_value(t.subrange(p, p + n)) {
        Some(v) => Some((v, p + n)),
        None => None,
    }
}

/// `k` octets separated by dots at `p`, and where they end.
pub open spec fn read_dotted(t: Seq<char>, p: int, k: nat) -> Option<(Seq<u8>, int)>
    decreases k,
{
    match read_octet_at(t, p) {
        None => None,
        Some((v, q)) => if k <= 1 {
            Some((seq![v], q))
        } else if 0 <= q < t.len() && t[q] == '.' {
            match read_dotted(t, q + 1, (k - 1) as nat) {
                Some((m, r)) => Some((seq![v] + m, r)),
                None => None,
            }
        } else {
            None
        },
    }
}

/// Where the `i`-th group starts when the text is at `p`: behind a colon,
/// except for the first group.
pub open spec fn after_sep(t: Seq<char>, p: int, i: nat) -> Option<int> {
    if i == 0 {
        Some(p)
    } else if 0 <= p < t.len() && t[p] == ':' {
        Some(p + 1)
    } else {
        None
    }
}

/// The two groups an IPv4 address fills.
pub open spec fn v4_groups(o: Seq<u8>) -> Seq<u16> {
    seq![(o[0] * 256 + o[1]) as u16, (o[2] * 256 + o[3]) as u16]
}

/// The groups read from `p` on, the `i`-th of at most `limit`: hexadecimal
/// groups separated by colons, where an IPv4 address may stand for the
/// last two. Gives the groups, where they end, and whether an IPv4 address
/// ended them.
pub open spec fn read_groups(t: Seq<char>, p: int, i: nat, limit: nat) -> (Seq<u16>, int, bool)
    decreases limit - i,
{
    if i >= limit {
        (Seq::empty(), p, false)
    } else {
        let v4 = match after_sep(t, p, i) {
            Some(q) => if i + 1 < limit { read_dotted(t, q, 4) } else { None },
            None => None,
        };
        match v4 {
            Some((o, r)) => (v4_groups(o), r, true),
            None => match after_sep(t, p, i) {
                Some(q) => match read_hex_at(t, q) {
                    Some((g, r)) => {
                        let rest = read_groups(t, r, i + 1, limit);
                        (seq![g] + rest.0, rest.1, rest.2)
                    },
                    None => (Seq::empty(), p, false),
                },
                None => (Seq::empty(), p, false),
            },
        }
    }
}

/// The eight groups of an IPv6 address as the standard library reads it:
/// eight groups, or fewer around one `::` that stands for the zero groups
/// left out, the last two of which may be written as an IPv4 address.
pub open spec fn ipv6_parse(t: Seq<char>) -> Option<Seq<u16>> {
    let head = read_groups(t, 0, 0, 8);
    if head.0.len() == 8 {
        if head.1 == t.len() { Some(head.0) } else { None }
    } else if head.2 {
        None
    } else if 0 <= head.1 && head.1 + 2 <= t.len() && t[head.1] == ':' && t[head.1 + 1] == ':' {
        let tail = read_groups(t, head.1 + 2, 0, (7 - head.0.len()) as nat);
        if tail.1 == t.len() && head.0.len() + tail.0.len() <= 8 {
            Some(head.0 + Seq::new((8 - head.0.len() - tail.0.len()) as nat, |k: int| 0u16) + tail.0)
        } else {
            None
        }
    } else {
        None
    }
}

/// A parsed IPv6 address has eight groups.
pub proof fn lemma_ipv6_parse_len(t: Seq<char>)
    ensures
        ipv6_parse(t) matches Some(g) ==> g.len() == 8,
{
    lemma_read_groups_len(t, 0, 0, 8);
    let head = read_groups(t, 0, 0, 8);
    if head.0.len() < 8 && !head.2 && 0 <= head.1 && head.1 + 2 <= t.len() {
        lemma_read_groups_len(t, head.1 + 2, 0, (7 - head.0.len()) as nat);
    }
}

/// Reading groups gives no more than were asked for, and ends no earlier
/// than it started.
pub proof fn lemma_read_groups_len(t: Seq<char>, p: int, i: nat, limit: nat)
    ensures
        i <= limit ==> read_groups(t, p, i, limit).0.len() <= limit - i,
        read_groups(t, p, i, limit).1 >= p,
    decreases limit - i,
{
    if i < limit {
        match after_sep(t, p, i) {
            Some(q) => {
                lemma_read_dotted_end(t, q, 4);
                if read_dotted(t, q, 4) is None || i + 1 >= limit {
                    if let Some((g, r)) = read_hex_at(t, q) {
                        lemma_read_groups_len(t, r, i + 1, limit);
                    }
                }
            },
            None => {},
        }
    }
}

/// Reading octets ends no earlier than it started and gives `k` of them.
pub proof fn lemma_read_dotted_end(t: Seq<char>, p: int, k: nat)
    ensures
        read_dotted(t, p, k) matches Some((m, r)) ==> r >= p && (k >= 1 ==> m.len() == k) && (k == 0 ==> m.len() == 1),
    decreases k,
{
    if let Some((v, q)) = read_octet_at(t, p) {
        if k > 1 && 0 <= q < t.len() && t[q] == '.' {
            lemma_read_dotted_end(t, q + 1, (k - 1) as nat);
        }
    }
}

/// The value of a hexadecimal digit character.
fn hex_digit_value(c: char) -> (r: u64)
    requires
        is_hex(c),
    ensures
        r == hex_value(c),
        r < 16,
{
    if '0' <= c && c <= '9' {
        (c as u32 - '0' as u32) as u64
    } else if 'a' <= c && c <= 'f' {
        (c as u32 - 'a' as u32 + 10) as u64
    } else {
        (c as u32 - 'A' as u32 + 10) as u64
    }
}

/// The number of hexadecimal digits of `t` from `start`.
fn hex_run_from(t: &str, start: usize) -> (r: usize)
    requires
        start <= t@.len(),
    ensures
        r == hex_run(t@.skip(start as int)),
        start + r <= t@.len(),
{
    let n = t.unicode_len();
    let mut j: usize = start;
    while j < n && is_hex_char(t.get_char(j))
        invariant
            n == t@.len(),
            start <= j <= n,
            hex_run(t@.skip(start as int)) == (j - start) + hex_run(t@.skip(j as int)),
        decreases n - j,
    {
        assert(t@.skip(j as int).drop_first() =~= t@.skip(j as int + 1));
        j = j + 1;
    }
    j - start
}

fn is_hex_char(c: char) -> (r: bool)
    ensures
        r == is_hex(c),
{
    ('0' <= c && c <= '9') || ('a' <= c && c <= 'f') || ('A' <= c && c <= 'F')
}

/// A hexadecimal group at `p`.
fn read_hex_exec(t: &str, p: usize) -> (r: Option<(u16, usize)>)
    requires
        p <= t@.len(),
    ensures
        r matches Some((g, q)) ==> read_hex_at(t@, p as int) == Some((g, q as int)) && q <= t@.len(),
        r is None ==> read_hex_at(t@, p as int) is None,
{
    let total = t.unicode_len();
    let n = hex_run_from(t, p);
    if n < 1 || n > 4 {
        return None;
    }
    let ghost s = t@.subrange(p as int, p + n);
    let mut value: u64 = 0;
    let mut k: usize = 0;
    while k < n
        invariant
            1 <= n <= 4,
            p + n <= t@.len(),
            total == t@.len(),
            n == hex_run(t@.skip(p as int)),
            s == t@.subrange(p as int, p + n),
            0 <= k <= n,
            value == hex_digits_value(s.take(k as int)),
            value < (if k == 0 { 1int } else if k == 1 { 16 } else if k == 2 { 256 } else if k == 3 { 4096 } else { 65536 }),
        decreases n - k,
    {
        proof { lemma_hex_run_prefix(t@.skip(p as int), k as int); }
        assert(t@.skip(p as int)[k as int] == s[k as int]);
        let c = t.get_char(p + k);
        let d = hex_digit_value(c);
        assert(s.take(k as int + 1).drop_last() =~= s.take(k as int));
        value = value * 16 + d;
        k = k + 1;
    }
    assert(s.take(n as int) =~= s);
    Some((value as u16, p + n))
}

/// The first `k` characters of `t` within its hex run are hex digits.
proof fn lemma_hex_run_prefix(t: Seq<char>, k: int)
    requires
        0 <= k < hex_run(t),
    ensures
        k < t.len(),
        is_hex(t[k]),
    decreases k,
{
    if k > 0 {
        lemma_hex_run_prefix(t.drop_first(), k - 1);
    }
}

/// An octet in decimal at `p`.
fn read_octet_exec(t: &str, p: usize) -> (r: Option<(u8, usize)>)
    requires
        p <= t@.len(),
    ensures
        r matches Some((v, q)) ==> read_octet_at(t@, p as int) == Some((v, q as int)) && q <= t@.len(),
        r is None ==> read_octet_at(t@, p as int) is None,
{
    let total = t.unicode_len();
    let run = digit_run_from(t, p);
    let ghost cur = t@.skip(p as int);
    proof { lemma_digit_run_bound(cur); }
    assert(p + run <= total);
    assert(cur.take(run as int) =~= t@.subrange(p as int, p + run));
    if run < 1 || run > 3 {
        return None;
    }
    let head = t.substring_char(p, p + run);
    if run > 1 && head.get_char(0) == '0' {
        return None;
    }
    let value = match parse_unsigned_text(head, 255) {
        Some(v) => v,
        None => return None,
    };
    assert(head@ == cur.take(run as int));
    assert(octet_value(head@) == Some(value as u8));
    Some((value as u8, p + run))
}

/// `k` octets separated by dots at `p`.
fn read_dotted_exec(t: &str, p: usize, k: u64) -> (r: Option<(Vec<u8>, usize)>)
    requires
        p <= t@.len(),
    ensures
        r matches Some((m, q)) ==> read_dotted(t@, p as int, k as nat) == Some((m@, q as int)) && q <= t@.len(),
        r is None ==> read_dotted(t@, p as int, k as nat) is None,
    decreases k,
{
    let n = t.unicode_len();
    match read_octet_exec(t, p) {
        None => None,
        Some((v, q)) => {
            if k <= 1 {
                let mut m: Vec<u8> = Vec::new();
                m.push(v);
                assert(m@ =~= seq![v]);
                Some((m, q))
            } else if q < n && t.get_char(q) == '.' {
                match read_dotted_exec(t, q + 1, k - 1) {
                    Some((rest, e)) => {
                        let mut m: Vec<u8> = Vec::new();
                        m.push(v);
                        let mut j: usize = 0;
                        while j < rest.len()
                            invariant
                                0 <= j <= rest@.len(),
                                m@ == seq![v] + rest@.take(j as int),
                            decreases rest@.len() - j,
                        {
                            m.push(rest[j]);
                            assert(rest@.take(j as int + 1) =~= rest@.take(j as int).push(rest@[j as int]));
                            assert(m@ =~= seq![v] + rest@.take(j as int + 1));
                            j = j + 1;
                        }
                        assert(rest@.take(j as int) =~= rest@);
                        Some((m, e))
                    },
                    None => None,
                }
            } else {
                None
            }
        },
    }
}

/// Where the `i`-th group starts, behind a colon but for the first.
fn after_sep_exec(t: &str, p: usize, i: u64) -> (r: Option<usize>)
    requires
        p <= t@.len(),
    ensures
        r matches Some(q) ==> after_sep(t@, p as int, i as nat) == Some(q as int) && q <= t@.len(),
        r is None ==> after_sep(t@, p as int, i as nat) is None,
{
    if i == 0 {
        Some(p)
    } else if p < t.unicode_len() && t.get_char(p) == ':' {
        Some(p + 1)
    } else {
        None
    }
}

/// The groups read from `p` on, as `read_groups` says.
fn read_groups_exec(t: &str, p: usize, i: u64, limit: u64) -> (r: (Vec<u16>, usize, bool))
    requires
        p <= t@.len(),
        limit <= 8,
    ensures
        (r.0@, r.1 as int, r.2) == read_groups(t@, p as int, i as nat, limit as nat),
        r.1 <= t@.len(),
    decreases limit - i,
{
    if i >= limit {
        return (Vec::new(), p, false);
    }
    let v4 = match after_sep_exec(t, p, i) {
        Some(q) => if i + 1 < limit { read_dotted_exec(t, q, 4) } else { None },
        None => None,
    };
    match v4 {
        Some((o, r)) => {
            proof { lemma_read_dotted_end(t@, after_sep(t@, p as int, i as nat)->0, 4); }
            let mut g: Vec<u16> = Vec::new();
            g.push((o[0] as u16) * 256 + o[1] as u16);
            g.push((o[2] as u16) * 256 + o[3] as u16);
            assert(g@ =~= v4_groups(o@));
            (g, r, true)
        },
        None => match after_sep_exec(t, p, i) {
            Some(q) => match read_hex_exec(t, q) {
                Some((g, r)) => {
                    let rest = read_groups_exec(t, r, i + 1, limit);
                    let mut all: Vec<u16> = Vec::new();
                    all.push(g);
                    let mut j: usize = 0;
                    while j < rest.0.len()
                        invariant
                            0 <= j <= rest.0@.len(),
                            all@ == seq![g] + rest.0@.take(j as int),
                        decreases rest.0@.len() - j,
                    {
                        all.push(rest.0[j]);
                        assert(rest.0@.take(j as int + 1) =~= rest.0@.take(j as int).push(rest.0@[j as int]));
                        assert(all@ =~= seq![g] + rest.0@.take(j as int + 1));
                        j = j + 1;
                    }
                    assert(rest.0@.take(j as int) =~= rest.0@);
                    (all, rest.1, rest.2)
                },
                None => (Vec::new(), p, false),
            },
            None => (Vec::new(), p, false),
        },
    }
}

/// Parses an IPv6 address the way the standard library does.
pub fn parse_ipv6(t: &str) -> (r: Option<Vec<u16>>)
    ensures
        r matches Some(g) ==> ipv6_parse(t@) == Some(g@),
        r is None ==> ipv6_parse(t@) is None,
{
    let n = t.unicode_len();
    let head = read_groups_exec(t, 0, 0, 8);
    proof { lemma_read_groups_len(t@, 0, 0, 8); }
    if head.0.len() == 8 {
        if head.1 == n { return Some(head.0); } else { return None; }
    }
    if head.2 {
        return None;
    }
    let p = head.1;
    if !(p < n && n - p >= 2 && t.get_char(p) == ':' && t.get_char(p + 1) == ':') {
        return None;
    }
    let limit = 7 - head.0.len() as u64;
    let tail = read_groups_exec(t, p + 2, 0, limit);
    proof { lemma_read_groups_len(t@, p + 2, 0, limit as nat); }
    if tail.1 != n {
        return None;
    }
    let zeros = 8 - head.0.len() - tail.0.len();
    let mut all: Vec<u16> = Vec::new();
    let mut j: usize = 0;
    while j < head.0.len()
        invariant
            0 <= j <= head.0@.len(),
            all@ == head.0@.take(j as int),
        decreases head.0@.len() - j,
    {
        all.push(head.0[j]);
        assert(head.0@.take(j as int + 1) =~= head.0@.take(j as int).push(head.0@[j as int]));
        j = j + 1;
    }
    assert(head.0@.take(j as int) =~= head.0@);
    let ghost zs = Seq::new(zeros as nat, |k: int| 0u16);
    let mut z: usize = 0;
    while z < zeros
        invariant
            0 <= z <= zeros,
            zs == Seq::new(zeros as nat, |k: int| 0u16),
            all@ == head.0@ + zs.take(z as int),
        decreases zeros - z,
    {
        all.push(0);
        assert(zs.take(z as int + 1) =~= zs.take(z as int).push(0u16));
        z = z + 1;
    }
    assert(zs.take(z as int) =~= zs);
    let mut k: usize = 0;
    while k < tail.0.len()
        invariant
            0 <= k <= tail.0@.len(),
            all@ == head.0@ + zs + tail.0@.take(k as int),
        decreases tail.0@.len() - k,
    {
        all.push(tail.0[k]);
        assert(tail.0@.take(k as int + 1) =~= tail.0@.take(k as int).push(tail.0@[k as int]));
        k = k + 1;
    }
    assert(tail.0@.take(k as int) =~= tail.0@);
    Some(all)
}

/// The hexadecimal digit of `d`, in lower case.
pub open spec fn hex_char(d: nat) -> char {
    if d == 0 { '0' } else if d == 1 { '1' } else if d == 2 { '2' } else if d == 3 { '3' }
    else if d == 4 { '4' } else if d == 5 { '5' } else if d == 6 { '6' } else if d == 7 { '7' }
    else if d == 8 { '8' } else if d == 9 { '9' } else if d == 10 { 'a' } else if d == 11 { 'b' }
    else if d == 12 { 'c' } else if d == 13 { 'd' } else if d == 14 { 'e' } else { 'f' }
}

/// `n` in lower-case hexadecimal, without leading zeros.
pub open spec fn hex_text(n: nat) -> Seq<char>
    decreases n,
{
    if n < 16 { seq![hex_char(n)] } else { hex_text(n / 16) + seq![hex_char(n % 16)] }
}

/// Groups in hexadecimal, separated by colons.
pub open spec fn groups_text(g: Seq<u16>) -> Seq<char>
    decreases g.len(),
{
    if g.len() == 0 {
        Seq::empty()
    } else if g.len() == 1 {
        hex_text(g[0] as nat)
    } else {
        groups_text(g.drop_last()) + seq![':'] + hex_text(g.last() as nat)
    }
}

/// The longest run of zero groups among the first `i`, the first of the
/// longest where several are as long: its start and length, then the start
/// and length of the run that the `i`-th group ends.
pub open spec fn zero_scan(g: Seq<u16>, i: nat) -> (nat, nat, nat, nat)
    decreases i,
{
    if i == 0 || i > g.len() {
        (0, 0, 0, 0)
    } else {
        let s = zero_scan(g, (i - 1) as nat);
        if g[i - 1] == 0 {
            let cs: nat = if s.3 == 0 { (i - 1) as nat } else { s.2 };
            let cl: nat = s.3 + 1;
            if cl > s.1 { (cs, cl, cs, cl) } else { (s.0, s.1, cs, cl) }
        } else {
            (s.0, s.1, 0, 0)
        }
    }
}

/// Whether the groups are an IPv4 address mapped into IPv6: five zero
/// groups, then `ffff`.
pub open spec fn is_v4_mapped(g: Seq<u16>) -> bool {
    g.len() == 8 && g[0] == 0 && g[1] == 0 && g[2] == 0 && g[3] == 0 && g[4] == 0 && g[5] == 0xffff
}

/// An IPv6 address as the standard library displays it: a mapped IPv4
/// address as `::ffff:` and the dotted address, else the groups in
/// lower-case hexadecimal with the first longest run of two or more zero
/// groups written as `::`.
pub open spec fn ipv6_text(g: Seq<u16>) -> Seq<char> {
    if is_v4_mapped(g) {
        "::ffff:"@ + dotted_text((g[6] / 256) as u8, (g[6] % 256) as u8, (g[7] / 256) as u8, (g[7] % 256) as u8)
    } else {
        let z = zero_scan(g, g.len());
        if z.1 > 1 {
            groups_text(g.take(z.0 as int)) + "::"@ + groups_text(g.skip((z.0 + z.1) as int))
        } else {
            groups_text(g)
        }
    }
}

/// A hexadecimal digit as text.
fn hex_digit_str(d: u64) -> (r: &'static str)
    requires
        d < 16,
    ensures
        r@ == seq![hex_char(d as nat)],
{
    proof {
        reveal_strlit("0"); reveal_strlit("1"); reveal_strlit("2"); reveal_strlit("3");
        reveal_strlit("4"); reveal_strlit("5"); reveal_strlit("6"); reveal_strlit("7");
        reveal_strlit("8"); reveal_strlit("9"); reveal_strlit("a"); reveal_strlit("b");
        reveal_strlit("c"); reveal_strlit("d"); reveal_strlit("e"); reveal_strlit("f");
    }
    match d {
        0 => "0", 1 => "1", 2 => "2", 3 => "3", 4 => "4", 5 => "5", 6 => "6", 7 => "7",
        8 => "8", 9 => "9", 10 => "a", 11 => "b", 12 => "c", 13 => "d", 14 => "e", _ => "f",
    }
}

/// `n` in lower-case hexadecimal.
pub fn hex_string(n: u64) -> (r: String)
    ensures
        r@ == hex_text(n as nat),
    decreases n,
{
    if n < 16 {
        String::from_str(hex_digit_str(n))
    } else {
        let mut s = hex_string(n / 16);
        s.append(hex_digit_str(n % 16));
        s
    }
}

/// The groups `from` to `to` in hexadecimal, separated by colons.
fn groups_string(g: &Vec<u16>, from: usize, to: usize) -> (r: String)
    requires
        from <= to <= g@.len(),
    ensures
        r@ == groups_text(g@.subrange(from as int, to as int)),
{
    let mut r = String::new();
    assert(g@.subrange(from as int, from as int) =~= Seq::<u16>::empty());
    let mut j: usize = from;
    while j < to
        invariant
            from <= j <= to <= g@.len(),
            r@ == groups_text(g@.subrange(from as int, j as int)),
        decreases to - j,
    {
        let ghost part = g@.subrange(from as int, j as int + 1);
        assert(part.drop_last() =~= g@.subrange(from as int, j as int));
        assert(part.last() == g@[j as int]);
        if j > from {
            proof { reveal_strlit(":"); }
            r.append(":");
        }
        r.append(hex_string(g[j] as u64).as_str());
        j = j + 1;
    }
    r
}

/// An IPv6 address as the standard library displays it.
pub fn ipv6_string(g: &Vec<u16>) -> (r: String)
    requires
        g@.len() == 8,
    ensures
        r@ == ipv6_text(g@),
{
    if g[0] == 0 && g[1] == 0 && g[2] == 0 && g[3] == 0 && g[4] == 0 && g[5] == 0xffff {
        let mut r = String::from_str("::ffff:");
        r.append(dotted_string((g[6] / 256) as u8, (g[6] % 256) as u8, (g[7] / 256) as u8, (g[7] % 256) as u8).as_str());
        proof { reveal_strlit("::ffff:"); }
        return r;
    }
    let mut longest_start: usize = 0;
    let mut longest_len: usize = 0;
    let mut current_start: usize = 0;
    let mut current_len: usize = 0;
    let mut i: usize = 0;
    while i < 8
        invariant
            g@.len() == 8,
            0 <= i <= 8,
            (longest_start as nat, longest_len as nat, current_start as nat, current_len as nat) == zero_scan(g@, i as nat),
            longest_len <= i,
            current_len <= i,
            longest_start + longest_len <= i,
            current_start + current_len <= i,
        decreases 8 - i,
    {
        if g[i] == 0 {
            if current_len == 0 {
                current_start = i;
            }
            current_len = current_len + 1;
            if current_len > longest_len {
                longest_start = current_start;
                longest_len = current_len;
            }
        } else {
            current_start = 0;
            current_len = 0;
        }
        i = i + 1;
    }
    if longest_len > 1 {
        let mut r = groups_string(g, 0, longest_start);
        proof { reveal_strlit("::"); }
        r.append("::");
        r.append(groups_string(g, longest_start + longest_len, 8).as_str());
        assert(g@.subrange(0, longest_start as int) =~= g@.take(longest_start as int));
        assert(g@.subrange(longest_start + longest_len, 8) =~= g@.skip(longest_start + longest_len));
        r
    } else {
        let r = groups_string(g, 0, 8);
        assert(g@.subrange(0, 8) =~= g@);
        r
    }
}

} // verus!
