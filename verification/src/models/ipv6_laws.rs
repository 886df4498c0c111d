use vstd::prelude::*;
use crate::models::forward_laws::{lemma_digit_run_concat, lemma_octet_read_back, octets_text};
use crate::models::ipv6::{
    after_sep, groups_text, hex_char, hex_digits_value, hex_run, hex_text, hex_value, ipv6_parse, ipv6_text,
    is_hex, is_v4_mapped, read_dotted, read_groups, read_hex_at, read_octet_at, v4_groups, zero_scan,
};
use crate::models::port_forward::{digit_run, dotted_text, ipv4_parse, lemma_digit_run_bound, octet_value, parse_octets};
use crate::text::{decimal, is_digit, lemma_decimal_read_back};

verus! {

/// A hexadecimal digit reads back as its value.
pub proof fn lemma_hex_char_value(d: nat)
    requires
        d < 16,
    ensures
        is_hex(hex_char(d)),
        hex_value(hex_char(d)) == d,
        hex_char(d) != ':',
        hex_char(d) != '.',
{
}

/// The hexadecimal text of a number is made of one to four hexadecimal
/// digits when the number fits in 16 bits, and reads back as the number.
pub proof fn lemma_hex_text(n: nat)
    ensures
        hex_text(n).len() >= 1,
        n < 65536 ==> hex_text(n).len() <= 4,
        n < 4096 ==> hex_text(n).len() <= 3,
        n < 256 ==> hex_text(n).len() <= 2,
        n < 16 ==> hex_text(n).len() == 1,
        forall|k: int| 0 <= k < hex_text(n).len() ==> is_hex(#[trigger] hex_text(n)[k]) && hex_text(n)[k] != ':'
            && hex_text(n)[k] != '.',
        hex_digits_value(hex_text(n)) == n,
    decreases n,
{
    if n < 16 {
        lemma_hex_char_value(n);
        assert(hex_text(n).drop_last() =~= Seq::<char>::empty());
        assert(hex_digits_value(hex_text(n)) == hex_digits_value(Seq::<char>::empty()) * 16 + hex_value(hex_char(n)));
    } else {
        lemma_hex_text(n / 16);
        lemma_hex_char_value(n % 16);
        let s = hex_text(n / 16);
        assert(hex_text(n).drop_last() =~= s);
        assert(hex_text(n).last() == hex_char(n % 16));
        assert(hex_digits_value(hex_text(n)) == hex_digits_value(s) * 16 + hex_value(hex_char(n % 16)));
        assert(n == (n / 16) * 16 + n % 16);
        assert forall|k: int| 0 <= k < hex_text(n).len() implies is_hex(#[trigger] hex_text(n)[k])
            && hex_text(n)[k] != ':' && hex_text(n)[k] != '.' by {
            if k < s.len() {
                assert(hex_text(n)[k] == s[k]);
            }
        }
    }
}

/// The hexadecimal digits that open a text run up to the first character
/// that is none.
pub proof fn lemma_hex_run_concat(d: Seq<char>, s: Seq<char>)
    requires
        forall|k: int| 0 <= k < d.len() ==> is_hex(#[trigger] d[k]),
        s.len() > 0 ==> !is_hex(s[0]),
    ensures
        hex_run(d + s) == d.len(),
    decreases d.len(),
{
    if d.len() > 0 {
        assert((d + s).drop_first() =~= d.drop_first() + s);
        assert forall|k: int| 0 <= k < d.drop_first().len() implies is_hex(#[trigger] d.drop_first()[k]) by {
            assert(d.drop_first()[k] == d[k + 1]);
        }
        lemma_hex_run_concat(d.drop_first(), s);
        assert((d + s)[0] == d[0]);
    } else {
        assert(d + s =~= s);
    }
}

/// Groups, each behind a colon.
pub open spec fn colon_groups(h: Seq<u16>) -> Seq<char>
    decreases h.len(),
{
    if h.len() == 0 { Seq::empty() } else { seq![':'] + hex_text(h[0] as nat) + colon_groups(h.drop_first()) }
}

/// The text the groups `h` are read from as the `i`-th group on: behind a
/// colon but for the first group.
pub open spec fn lead_text(h: Seq<u16>, i: nat) -> Seq<char> {
    if i > 0 {
        colon_groups(h)
    } else if h.len() == 0 {
        Seq::empty()
    } else {
        hex_text(h[0] as nat) + colon_groups(h.drop_first())
    }
}

/// Whether no character of `t` is a dot.
pub open spec fn dotless(t: Seq<char>) -> bool {
    forall|k: int| 0 <= k < t.len() ==> #[trigger] t[k] != '.'
}

/// Groups behind colons are hexadecimal digits and colons.
proof fn lemma_colon_groups_chars(h: Seq<u16>)
    ensures
        forall|k: int| 0 <= k < colon_groups(h).len() ==> (is_hex(#[trigger] colon_groups(h)[k]) || colon_groups(h)[k] == ':')
            && colon_groups(h)[k] != '.',
    decreases h.len(),
{
    if h.len() > 0 {
        lemma_colon_groups_chars(h.drop_first());
        lemma_hex_text(h[0] as nat);
        let a = seq![':'] + hex_text(h[0] as nat);
        let b = colon_groups(h.drop_first());
        assert(colon_groups(h) == a + b);
        assert forall|k: int| 0 <= k < colon_groups(h).len() implies (is_hex(#[trigger] colon_groups(h)[k])
            || colon_groups(h)[k] == ':') && colon_groups(h)[k] != '.' by {
            if k < a.len() {
                if k > 0 {
                    assert(colon_groups(h)[k] == hex_text(h[0] as nat)[k - 1]);
                }
            } else {
                assert(colon_groups(h)[k] == b[k - a.len()]);
            }
        }
    }
}

/// Appending a group appends it behind a colon.
proof fn lemma_colon_groups_push(h: Seq<u16>, g: u16)
    ensures
        colon_groups(h.push(g)) == colon_groups(h) + seq![':'] + hex_text(g as nat),
    decreases h.len(),
{
    if h.len() == 0 {
        assert(h.push(g).drop_first() =~= Seq::<u16>::empty());
        assert(h.push(g)[0] == g);
        assert(colon_groups(h) == Seq::<char>::empty());
        assert(colon_groups(h.push(g).drop_first()) == Seq::<char>::empty());
        assert(colon_groups(h.push(g)) =~= colon_groups(h) + seq![':'] + hex_text(g as nat));
    } else {
        assert(h.push(g).drop_first() =~= h.drop_first().push(g));
        assert(h.push(g)[0] == h[0]);
        lemma_colon_groups_push(h.drop_first(), g);
        assert(colon_groups(h.push(g)) =~= colon_groups(h) + seq![':'] + hex_text(g as nat));
    }
}

/// Groups separated by colons are the first group and the rest behind
/// colons.
proof fn lemma_groups_text_lead(h: Seq<u16>)
    ensures
        groups_text(h) == lead_text(h, 0),
    decreases h.len(),
{
    if h.len() == 1 {
        assert(h.drop_first() =~= Seq::<u16>::empty());
        assert(groups_text(h) =~= lead_text(h, 0));
    } else if h.len() > 1 {
        lemma_groups_text_lead(h.drop_last());
        lemma_colon_groups_push(h.drop_first().drop_last(), h.last());
        assert(h.drop_first().drop_last().push(h.last()) =~= h.drop_first());
        assert(h.drop_last().drop_first() =~= h.drop_first().drop_last());
        assert(h.drop_last()[0] == h[0]);
        assert(groups_text(h) =~= lead_text(h, 0));
    }
}

/// Groups separated by colons have no dot.
proof fn lemma_groups_text_dotless(h: Seq<u16>)
    ensures
        dotless(groups_text(h)),
        forall|k: int| 0 <= k < groups_text(h).len() ==> is_hex(#[trigger] groups_text(h)[k]) || groups_text(h)[k] == ':',
{
    lemma_groups_text_lead(h);
    if h.len() > 0 {
        lemma_hex_text(h[0] as nat);
        lemma_colon_groups_chars(h.drop_first());
        let a = hex_text(h[0] as nat);
        let b = colon_groups(h.drop_first());
        assert forall|k: int| 0 <= k < groups_text(h).len() implies (is_hex(#[trigger] groups_text(h)[k])
            || groups_text(h)[k] == ':') && groups_text(h)[k] != '.' by {
            if k < a.len() {
                assert(groups_text(h)[k] == a[k]);
            } else {
                assert(groups_text(h)[k] == b[k - a.len()]);
            }
        }
    }
}

/// Without a dot, no IPv4 address can be read.
proof fn lemma_dotless_dotted(t: Seq<char>, q: int, k: nat)
    requires
        dotless(t),
        k >= 2,
    ensures
        read_dotted(t, q, k) is None,
{
}

/// Reading groups from their text gives the groups, when the text is
/// followed by its end or by a colon that no group follows.
proof fn lemma_read_plain(t: Seq<char>, p: int, i: nat, limit: nat, h: Seq<u16>)
    requires
        dotless(t),
        0 <= p,
        p + lead_text(h, i).len() <= t.len(),
        t.subrange(p, p + lead_text(h, i).len()) == lead_text(h, i),
        i + h.len() <= limit,
        ({
            let e = p + lead_text(h, i).len();
            e == t.len() || (t[e] == ':' && (e + 1 == t.len() || !is_hex(t[e + 1])))
        }),
    ensures
        read_groups(t, p, i, limit) == (h, p + lead_text(h, i).len(), false),
    decreases limit - i,
{
    let e = p + lead_text(h, i).len();
    if h.len() == 0 {
        assert(e == p);
        if i < limit {
            lemma_dotless_dotted(t, if i > 0 { p + 1 } else { p }, 4);
            if i > 0 {
                if p < t.len() && t[p] == ':' {
                    assert(hex_run(t.skip(p + 1)) == 0);
                }
            } else {
                assert(hex_run(t.skip(p)) == 0);
            }
        }
    } else {
        let g = h[0];
        let rest = h.drop_first();
        let q = if i > 0 { p + 1 } else { p };
        let x = hex_text(g as nat);
        lemma_hex_text(g as nat);
        assert(lead_text(h, i) == (if i > 0 { seq![':'] } else { Seq::<char>::empty() }) + x + colon_groups(rest));
        assert(lead_text(rest, i + 1) == colon_groups(rest));
        if i > 0 {
            assert(t[p] == lead_text(h, i)[0]);
        }
        assert(after_sep(t, p, i) == Some(q));
        lemma_dotless_dotted(t, q, 4);
        let r = q + x.len();
        assert(t.subrange(q, r) =~= x) by {
            assert forall|k: int| 0 <= k < x.len() implies t.subrange(q, r)[k] == x[k] by {
                assert(t.subrange(q, r)[k] == t.subrange(p, e)[q - p + k]);
            }
        }
        assert(t.subrange(r, e) =~= colon_groups(rest)) by {
            assert forall|k: int| 0 <= k < colon_groups(rest).len() implies t.subrange(r, e)[k] == colon_groups(rest)[k] by {
                assert(t.subrange(r, e)[k] == t.subrange(p, e)[r - p + k]);
            }
        }
        assert(t.skip(q) =~= x + t.skip(r));
        if r < t.len() {
            if rest.len() > 0 {
                assert(t[r] == colon_groups(rest)[0]);
            } else {
                assert(r == e);
            }
            assert(t.skip(r)[0] == t[r]);
        }
        lemma_hex_run_concat(x, t.skip(r));
        assert(read_hex_at(t, q) == Some((g, r)));
        lemma_read_plain(t, r, i + 1, limit, rest);
        assert(seq![g] + rest =~= h);
    }
}

/// A dotted IPv4 text reads back as its octets.
proof fn lemma_read_dotted_text(t: Seq<char>, p: int, o: Seq<u8>)
    requires
        1 <= o.len(),
        0 <= p <= t.len(),
        t.skip(p) == octets_text(o),
    ensures
        read_dotted(t, p, o.len()) == Some((o, t.len() as int)),
    decreases o.len(),
{
    let d = decimal(o[0] as nat);
    lemma_decimal_read_back(o[0] as nat);
    lemma_octet_read_back(o[0]);
    let rest_text = if o.len() == 1 { Seq::<char>::empty() } else { seq!['.'] + octets_text(o.drop_first()) };
    assert(octets_text(o) == d + rest_text);
    lemma_digit_run_concat(d, rest_text);
    assert(t.subrange(p, p + d.len()) =~= d) by {
        assert forall|k: int| 0 <= k < d.len() implies t.subrange(p, p + d.len())[k] == d[k] by {
            assert(t.subrange(p, p + d.len())[k] == t.skip(p)[k]);
        }
    }
    assert(read_octet_at(t, p) == Some((o[0], p + d.len())));
    if o.len() > 1 {
        let q = p + d.len();
        assert(t[q] == t.skip(p)[d.len() as int]);
        assert(t.skip(q + 1) =~= t.skip(p).skip(d.len() as int + 1));
        assert((d + rest_text).skip(d.len() as int + 1) =~= octets_text(o.drop_first()));
        lemma_read_dotted_text(t, q + 1, o.drop_first());
        assert(seq![o[0]] + o.drop_first() =~= o);
    } else {
        assert(seq![o[0]] =~= o);
    }
}

/// The run the zero scan finds is made of zero groups and lies within the
/// groups scanned.
proof fn lemma_zero_scan(g: Seq<u16>, i: nat)
    requires
        i <= g.len(),
    ensures
        zero_scan(g, i).0 + zero_scan(g, i).1 <= i,
        zero_scan(g, i).2 + zero_scan(g, i).3 <= i,
        forall|k: int| zero_scan(g, i).0 <= k < zero_scan(g, i).0 + zero_scan(g, i).1 ==> g[k] == 0,
        forall|k: int| zero_scan(g, i).2 <= k < zero_scan(g, i).2 + zero_scan(g, i).3 ==> g[k] == 0,
        zero_scan(g, i).3 > 0 ==> zero_scan(g, i).2 + zero_scan(g, i).3 == i,
    decreases i,
{
    if i > 0 {
        lemma_zero_scan(g, (i - 1) as nat);
    }
}

/// A mapped IPv4 address as it is displayed reads back as the same groups.
#[verifier::rlimit(60)]
#[verifier::spinoff_prover]
proof fn lemma_ipv6_read_back_mapped(g: Seq<u16>)
    requires
        g.len() == 8,
        is_v4_mapped(g),
    ensures
        ipv6_parse(ipv6_text(g)) == Some(g),
{
    let t = ipv6_text(g);
    reveal_strlit("::ffff:");
    let a = (g[6] / 256) as u8;
    let b = (g[6] % 256) as u8;
    let c = (g[7] / 256) as u8;
    let d = (g[7] % 256) as u8;
    let o = seq![a, b, c, d];
    let prefix = "::ffff:"@;
    assert(prefix =~= seq![':', ':', 'f', 'f', 'f', 'f', ':']);
    reveal_strlit(".");
    reveal_with_fuel(octets_text, 5);
    assert(o.drop_first() =~= seq![b, c, d]);
    assert(o.drop_first().drop_first() =~= seq![c, d]);
    assert(o.drop_first().drop_first().drop_first() =~= seq![d]);
    assert(dotted_text(a, b, c, d) =~= octets_text(o));
    assert(t == prefix + octets_text(o));
    assert(t.skip(7) =~= octets_text(o));
    lemma_read_dotted_text(t, 7, o);
    // The head reads nothing: the text opens with colons.
    assert(t[0] == ':' && t[1] == ':' && t[6] == ':');
    assert(digit_run(t.skip(0)) == 0) by { assert(t.skip(0)[0] == ':'); }
    assert(octet_value(t.subrange(0, 0)) is None);
    assert(hex_run(t.skip(0)) == 0) by { assert(t.skip(0)[0] == ':'); }
    assert(read_groups(t, 0, 0, 8) == (Seq::<u16>::empty(), 0int, false));
    // The tail reads `ffff`, then the IPv4 address.
    assert(digit_run(t.skip(2)) == 0) by { assert(t.skip(2)[0] == 'f'); }
    assert(octet_value(t.subrange(2, 2)) is None);
    let f4 = t.subrange(2, 6);
    assert(f4 =~= seq!['f', 'f', 'f', 'f']);
    assert(t.skip(2) =~= f4 + t.skip(6));
    assert(forall|k: int| 0 <= k < f4.len() ==> is_hex(#[trigger] f4[k]));
    assert(t.skip(6)[0] == ':');
    lemma_hex_run_concat(f4, t.skip(6));
    reveal_with_fuel(hex_digits_value, 5);
    assert(f4.drop_last() =~= seq!['f', 'f', 'f']);
    assert(f4.drop_last().drop_last() =~= seq!['f', 'f']);
    assert(f4.drop_last().drop_last().drop_last() =~= seq!['f']);
    assert(f4.drop_last().drop_last().drop_last().drop_last() =~= Seq::<char>::empty());
    assert(hex_digits_value(f4) == 65535);
    assert(read_hex_at(t, 2) == Some((0xffffu16, 6int)));
    assert(v4_groups(o) =~= seq![g[6], g[7]]);
    assert(read_groups(t, 6, 1, 7) == (seq![g[6], g[7]], t.len() as int, true));
    assert(read_groups(t, 2, 0, 7) == (seq![0xffffu16] + seq![g[6], g[7]], t.len() as int, true));
    assert(Seq::<u16>::empty() + Seq::new(5, |k: int| 0u16) + (seq![0xffffu16] + seq![g[6], g[7]]) =~= g);
}

/// An address displayed with a run of zero groups left out reads back as the
/// same groups.
#[verifier::rlimit(60)]
#[verifier::spinoff_prover]
proof fn lemma_ipv6_read_back_compressed(g: Seq<u16>)
    requires
        g.len() == 8,
        !is_v4_mapped(g),
        zero_scan(g, 8).1 > 1,
    ensures
        ipv6_parse(ipv6_text(g)) == Some(g),
{
    let t = ipv6_text(g);
    let z = zero_scan(g, 8);
    lemma_zero_scan(g, 8);
    let s = z.0 as int;
    let l = z.1 as int;
    let head = g.take(s);
    let tail = g.skip(s + l);
    let x = groups_text(head);
    let y = groups_text(tail);
    reveal_strlit("::");
    assert("::"@ =~= seq![':', ':']);
    assert(t == x + "::"@ + y);
    lemma_groups_text_dotless(head);
    lemma_groups_text_dotless(tail);
    assert(dotless(t)) by {
        assert forall|k: int| 0 <= k < t.len() implies #[trigger] t[k] != '.' by {
            if k < x.len() {
                assert(t[k] == x[k]);
            } else if k >= x.len() + 2 {
                assert(t[k] == y[k - x.len() - 2]);
            }
        }
    }
    lemma_groups_text_lead(head);
    lemma_groups_text_lead(tail);
    assert(t.subrange(0, x.len() as int) =~= x);
    assert(t[x.len() as int] == ':' && t[x.len() as int + 1] == ':');
    lemma_read_plain(t, 0, 0, 8, head);
    let p: int = x.len() as int + 2;
    assert(t.subrange(p, p + y.len() as int) =~= y);
    assert(p + y.len() == t.len());
    lemma_read_plain(t, p, 0, (7 - head.len()) as nat, tail);
    assert(head + Seq::new((8 - head.len() - tail.len()) as nat, |k: int| 0u16) + tail =~= g);
}

/// An IPv6 address as it is displayed reads back as the same groups.
pub proof fn lemma_ipv6_read_back(g: Seq<u16>)
    requires
        g.len() == 8,
    ensures
        ipv6_parse(ipv6_text(g)) == Some(g),
{
    let t = ipv6_text(g);
    if is_v4_mapped(g) {
        lemma_ipv6_read_back_mapped(g);
    } else if zero_scan(g, 8).1 > 1 {
        lemma_ipv6_read_back_compressed(g);
    } else {
        lemma_groups_text_dotless(g);
        lemma_groups_text_lead(g);
        assert(t.subrange(0, t.len() as int) =~= t);
        lemma_read_plain(t, 0, 0, 8, g);
    }
}

/// Text that reads as dotted octets holds only digits and dots.
proof fn lemma_octets_chars(t: Seq<char>, k: nat)
    requires
        parse_octets(t, k) is Some,
    ensures
        forall|i: int| 0 <= i < t.len() ==> is_digit(#[trigger] t[i]) || t[i] == '.',
    decreases k,
{
    let n = digit_run(t);
    lemma_digit_run_bound(t);
    let rest = t.skip(n as int);
    if k > 1 && rest.len() > 0 && rest[0] == '.' {
        lemma_octets_chars(rest.drop_first(), (k - 1) as nat);
    }
    assert forall|i: int| 0 <= i < t.len() implies is_digit(#[trigger] t[i]) || t[i] == '.' by {
        if i < n {
            assert(t.take(n as int)[i] == t[i]);
        } else if i > n {
            assert(t[i] == rest.drop_first()[i - n - 1]);
        }
    }
}

/// An IPv6 address as it is displayed holds a colon, so it never reads as
/// an IPv4 address.
pub proof fn lemma_ipv6_text_not_v4(g: Seq<u16>)
    requires
        g.len() == 8,
    ensures
        ipv4_parse(ipv6_text(g)) is None,
{
    let t = ipv6_text(g);
    let c: int = if is_v4_mapped(g) {
        reveal_strlit("::ffff:");
        0
    } else if zero_scan(g, 8).1 > 1 {
        reveal_strlit("::");
        groups_text(g.take(zero_scan(g, 8).0 as int)).len() as int
    } else {
        lemma_groups_text_lead(g);
        lemma_hex_text(g[0] as nat);
        assert(g.drop_first().len() > 0);
        assert(colon_groups(g.drop_first())[0] == ':');
        hex_text(g[0] as nat).len() as int
    };
    assert(0 <= c < t.len() && t[c] == ':');
    if parse_octets(t, 4) is Some {
        lemma_octets_chars(t, 4);
        assert(is_digit(t[c]) || t[c] == '.');
    }
}

} // verus!
