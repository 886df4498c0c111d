use vstd::prelude::*;
use crate::models::port_forward::{
    digit_run, forward_from_values, ip_parse, ip_text, octet_value, parse_octets, parse_protocol, protocol_name,
    ForwardView, HostIp, Protocol,
};
use crate::models::ipv6_laws::{lemma_ipv6_read_back, lemma_ipv6_text_not_v4};
use crate::text::{all_digits, decimal, digit_char, digits_value, is_digit, lemma_decimal_read_back, parse_unsigned};

verus! {

/// A decimal representation has no leading zero unless it is zero.
pub proof fn lemma_decimal_no_leading_zero(n: nat)
    ensures
        decimal(n)[0] == '0' ==> n == 0,
    decreases n,
{
    if n >= 10 {
        lemma_decimal_no_leading_zero(n / 10);
        lemma_decimal_read_back(n / 10);
        assert(decimal(n)[0] == decimal(n / 10)[0]);
    }
}

/// An octet is written with one to three digits.
pub proof fn lemma_octet_digits(n: nat)
    requires
        n <= 255,
    ensures
        1 <= decimal(n).len() <= 3,
{
    if n >= 10 {
        let m = n / 10;
        if m >= 10 {
            assert(m / 10 < 10);
            assert(decimal(m / 10).len() == 1);
        }
        assert(decimal(m).len() <= 2);
    }
}

/// An octet as an address writes it reads back as itself.
pub proof fn lemma_octet_read_back(v: u8)
    ensures
        octet_value(decimal(v as nat)) == Some(v),
{
    lemma_decimal_read_back(v as nat);
    lemma_octet_digits(v as nat);
    lemma_decimal_no_leading_zero(v as nat);
}

/// The digits that open a text run up to the first character that is no
/// digit.
pub proof fn lemma_digit_run_concat(d: Seq<char>, s: Seq<char>)
    requires
        all_digits(d),
        s.len() > 0 ==> !is_digit(s[0]),
    ensures
        digit_run(d + s) == d.len(),
    decreases d.len(),
{
    if d.len() > 0 {
        assert((d + s)[0] == d[0]);
        assert(is_digit(d[0]));
        assert((d + s).drop_first() =~= d.drop_first() + s);
        assert forall|i: int| 0 <= i < d.drop_first().len() implies #[trigger] is_digit(d.drop_first()[i]) by {
            assert(d.drop_first()[i] == d[i + 1]);
        }
        lemma_digit_run_concat(d.drop_first(), s);
    } else {
        assert(d + s =~= s);
    }
}

/// Octets written as an address writes them: in decimal, a dot between two.
pub open spec fn octets_text(o: Seq<u8>) -> Seq<char>
    decreases o.len(),
{
    if o.len() <= 1 {
        if o.len() == 1 { decimal(o[0] as nat) } else { Seq::empty() }
    } else {
        decimal(o[0] as nat) + seq!['.'] + octets_text(o.drop_first())
    }
}

/// Octets written as an address reads back as the same octets.
pub proof fn lemma_octets_read_back(o: Seq<u8>)
    requires
        o.len() >= 1,
    ensures
        parse_octets(octets_text(o), o.len()) == Some(o),
    decreases o.len(),
{
    let t = octets_text(o);
    let d = decimal(o[0] as nat);
    lemma_decimal_read_back(o[0] as nat);
    lemma_octet_read_back(o[0]);
    if o.len() == 1 {
        lemma_digit_run_concat(d, Seq::empty());
        assert(d + Seq::<char>::empty() =~= d);
        assert(t.take(d.len() as int) =~= d);
        assert(t.skip(d.len() as int) =~= Seq::<char>::empty());
        assert(seq![o[0]] =~= o);
    } else {
        let rest = seq!['.'] + octets_text(o.drop_first());
        assert(t =~= d + rest);
        lemma_digit_run_concat(d, rest);
        assert(t.take(d.len() as int) =~= d);
        assert(t.skip(d.len() as int) =~= rest);
        assert(rest.drop_first() =~= octets_text(o.drop_first()));
        lemma_octets_read_back(o.drop_first());
        assert(seq![o[0]] + o.drop_first() =~= o);
    }
}

/// An address as it is displayed reads back as the same address.
pub proof fn lemma_ip_read_back(ip: HostIp)
    ensures
        ip_parse(ip_text(ip)) == Some(ip),
{
    reveal_strlit(".");
    match ip {
        HostIp::V4(a, b, c, d) => {
            let o = seq![a, b, c, d];
            reveal_with_fuel(octets_text, 5);
            assert(o.drop_first() =~= seq![b, c, d]);
            assert(o.drop_first().drop_first() =~= seq![c, d]);
            assert(o.drop_first().drop_first().drop_first() =~= seq![d]);
            assert(ip_text(ip) =~= octets_text(o));
            lemma_octets_read_back(o);
        },
        HostIp::V6(a, b, c, d, e, f, g, h) => {
            let groups = seq![a, b, c, d, e, f, g, h];
            lemma_ipv6_read_back(groups);
            lemma_ipv6_text_not_v4(groups);
        },
    }
}

/// A protocol's name reads back as the protocol.
pub proof fn lemma_protocol_read_back(p: Protocol)
    ensures
        parse_protocol(protocol_name(p)) == Some(p),
{
    reveal_strlit("udp");
    reveal_strlit("tcp");
    assert("udp"@ != "tcp"@) by { assert("udp"@[0] != "tcp"@[0]); }
}

/// The pieces a forward is written with read back as the same forward:
/// protocol name, address, host port and guest port.
pub proof fn lemma_forward_values_read_back(f: ForwardView)
    ensures
        forward_from_values(Some(protocol_name(f.3)), Some(ip_text(f.0)), decimal(f.1 as nat), decimal(f.2 as nat))
            == Some(f),
{
    lemma_ip_read_back(f.0);
    lemma_protocol_read_back(f.3);
    lemma_decimal_read_back(f.1 as nat);
    lemma_decimal_read_back(f.2 as nat);
    assert(parse_unsigned(decimal(f.1 as nat), 65535) == Some(f.1 as nat)) by {
        assert(decimal(f.1 as nat)[0] != '+') by { assert(is_digit(decimal(f.1 as nat)[0])); }
    }
    assert(parse_unsigned(decimal(f.2 as nat), 65535) == Some(f.2 as nat)) by {
        assert(decimal(f.2 as nat)[0] != '+') by { assert(is_digit(decimal(f.2 as nat)[0])); }
    }
}

} // verus!
