use vstd::prelude::*;
use vstd::string::StringExecFns;
use vstd::string::StrSliceExecFns;
use crate::models::ipv6::{ipv6_parse, ipv6_text, lemma_ipv6_parse_len, parse_ipv6, ipv6_string};
use crate::text::{all_digits, decimal, decimal_string, digits_value, is_digit, parse_unsigned, parse_unsigned_text, str_eq};
use crate::models::forward_laws::lemma_forward_values_read_back;

verus! {

/// The format a forward is written in on the command line.
pub const PORT_PATTERN: &'static str = "^(([\\d.:]+):)?(\\d+):(\\d+)(/(\\w+))?$";
/// The format QEMU writes a forward in.
pub const QEMU_PORT_PATTERN: &'static str = "^(\\w+)?:([\\d.:]+)?:(\\d+)-:(\\d+)$";

pub const FORMAT_ERROR: &'static str = "Must comply with format: [host_ip:]host_port:guest_port[/(udp|tcp)] (e.g. -p 8000:80 or -p 127.0.0.1:9000:90/tcp)";
pub const QEMU_FORMAT_ERROR: &'static str = "Must comply with format: [tcp|udp]:[hostaddr]:hostport-[guestaddr]:guestport (e.g. ::8000-:80 or -p tcp:127.0.0.1:9000-:90)";

/// The capture groups of `pattern` on `text`, as the regex crate finds them
/// (group 0 is the whole match), or `None` when the pattern does not match
/// or does not compile. The answer depends on the two texts alone.
pub uninterp spec fn regex_captures(pattern: Seq<char>, text: Seq<char>) -> Option<Seq<Option<Seq<char>>>>;

/// The capture groups of a text in optional texts.
pub open spec fn captures_view(c: Option<Vec<Option<String>>>) -> Option<Seq<Option<Seq<char>>>> {
    match c {
        None => None,
        Some(v) => Some(Seq::new(v@.len(), |i: int| match v@[i] {
            Some(s) => Some(s@),
            None => None,
        })),
    }
}

/// Runs `regex::Regex::new` on `pattern` and `Regex::captures` on `text`,
/// and hands back the text of each group. Nothing is claimed about which
/// groups match; the contract names the answer, which depends on the two
/// texts alone.
#[verifier::external_body]
fn capture_groups(pattern: &str, text: &str) -> (r: Option<Vec<Option<String>>>)
    ensures
        captures_view(r) == regex_captures(pattern@, text@),
{
    let re = regex::Regex::new(pattern).ok()?;
    let caps = re.captures(text)?;
    Some(caps.iter().map(|m| m.map(|m| m.as_str().to_string())).collect())
}

/// The transport protocol of a forward.
#[derive(Debug, Clone, Copy, PartialEq, Eq, Structural)]
pub enum Protocol {
    Udp,
    Tcp,
}

/// The name of a protocol.
pub open spec fn protocol_name(p: Protocol) -> Seq<char> {
    match p {
        Protocol::Udp => "udp"@,
        Protocol::Tcp => "tcp"@,
    }
}

/// The protocol a name stands for.
pub open spec fn parse_protocol(t: Seq<char>) -> Option<Protocol> {
    if t == "udp"@ { Some(Protocol::Udp) } else if t == "tcp"@ { Some(Protocol::Tcp) } else { None }
}

impl Protocol {
    pub fn from_str(value: &str) -> (r: Result<Protocol, String>)
        ensures
            parse_protocol(value@) matches Some(p) ==> r == Ok::<Protocol, String>(p),
            parse_protocol(value@) is None ==> (r matches Err(e) && e@ == FORMAT_ERROR@),
    {
        if str_eq(value, "udp") {
            Ok(Protocol::Udp)
        } else if str_eq(value, "tcp") {
            Ok(Protocol::Tcp)
        } else {
            Err(FORMAT_ERROR.to_string())
        }
    }

    pub fn to_string(&self) -> (r: String)
        ensures
            r@ == protocol_name(*self),
    {
        match self {
            Protocol::Udp => String::from_str("udp"),
            Protocol::Tcp => String::from_str("tcp"),
        }
    }
}

/// A host address: four octets, or eight 16-bit groups.
#[derive(Debug, Clone, Copy, PartialEq, Eq, Structural)]
pub enum HostIp {
    V4(u8, u8, u8, u8),
    V6(u16, u16, u16, u16, u16, u16, u16, u16),
}

/// Four octets in dotted decimal.
pub open spec fn dotted_text(a: u8, b: u8, c: u8, d: u8) -> Seq<char> {
    decimal(a as nat) + "."@ + decimal(b as nat) + "."@ + decimal(c as nat) + "."@ + decimal(d as nat)
}

/// How an address is displayed: dotted decimal octets, or an IPv6 address
/// as the standard library displays it.
pub open spec fn ip_text(ip: HostIp) -> Seq<char> {
    match ip {
        HostIp::V4(a, b, c, d) => dotted_text(a, b, c, d),
        HostIp::V6(a, b, c, d, e, f, g, h) => ipv6_text(seq![a, b, c, d, e, f, g, h]),
    }
}

/// The number of decimal digits `t` starts with.
pub open spec fn digit_run(t: Seq<char>) -> nat
    decreases t.len(),
{
    if t.len() > 0 && is_digit(t[0]) { 1 + digit_run(t.drop_first()) } else { 0 }
}

/// An octet written the way an address writes it: one to three digits,
/// no leading zero, at most 255.
pub open spec fn octet_value(p: Seq<char>) -> Option<u8> {
    if 1 <= p.len() <= 3 && all_digits(p) && (p.len() == 1 || p[0] != '0') && digits_value(p) <= 255 {
        Some(digits_value(p) as u8)
    } else {
        None
    }
}

/// The `k` dot-separated octets `t` is made of, if it is made of exactly
/// that.
pub open spec fn parse_octets(t: Seq<char>, k: nat) -> Option<Seq<u8>>
    decreases k,
{
    let n = digit_run(t);
    let head = t.take(n as int);
    let rest = t.skip(n as int);
    match octet_value(head) {
        None => None,
        Some(v) => if k <= 1 {
            if rest.len() == 0 { Some(seq![v]) } else { None }
        } else if rest.len() > 0 && rest[0] == '.' {
            match parse_octets(rest.drop_first(), (k - 1) as nat) {
                Some(more) => Some(seq![v] + more),
                None => None,
            }
        } else {
            None
        },
    }
}

/// The IPv4 address a text stands for: four octets in dotted decimal, as
/// the standard library reads an IPv4 address.
pub open spec fn ipv4_parse(t: Seq<char>) -> Option<HostIp> {
    match parse_octets(t, 4) {
        Some(o) => if o.len() == 4 { Some(HostIp::V4(o[0], o[1], o[2], o[3])) } else { None },
        None => None,
    }
}

/// The address a text stands for, as the standard library reads an IP
/// address: an IPv4 address, else an IPv6 address.
pub open spec fn ip_parse(t: Seq<char>) -> Option<HostIp> {
    match ipv4_parse(t) {
        Some(ip) => Some(ip),
        None => match ipv6_parse(t) {
            Some(g) => if g.len() == 8 {
                Some(HostIp::V6(g[0], g[1], g[2], g[3], g[4], g[5], g[6], g[7]))
            } else {
                None
            },
            None => None,
        },
    }
}

pub proof fn lemma_digit_run_bound(t: Seq<char>)
    ensures
        digit_run(t) <= t.len(),
        all_digits(t.take(digit_run(t) as int)),
        digit_run(t) < t.len() ==> !is_digit(t[digit_run(t) as int]),
    decreases t.len(),
{
    if t.len() > 0 && is_digit(t[0]) {
        lemma_digit_run_bound(t.drop_first());
        let n = digit_run(t);
        assert forall|i: int| 0 <= i < n implies #[trigger] is_digit(t.take(n as int)[i]) by {
            if i > 0 {
                assert(t.take(n as int)[i] == t.drop_first().take(n - 1)[i - 1]);
            }
        }
    }
}

/// The number of leading digits of `t` from `start`.
pub(crate) fn digit_run_from(t: &str, start: usize) -> (r: usize)
    requires
        start <= t@.len(),
    ensures
        r == digit_run(t@.skip(start as int)),
{
    let n = t.unicode_len();
    let mut j: usize = start;
    while j < n && '0' <= t.get_char(j) && t.get_char(j) <= '9'
        invariant
            n == t@.len(),
            start <= j <= n,
            digit_run(t@.skip(start as int)) == (j - start) + digit_run(t@.skip(j as int)),
        decreases n - j,
    {
        assert(t@.skip(j as int).drop_first() =~= t@.skip(j as int + 1));
        j = j + 1;
    }
    j - start
}

/// Parses an IP address: an IPv4 address, else an IPv6 address.
pub fn parse_ip(t: &str) -> (r: Option<HostIp>)
    ensures
        r == ip_parse(t@),
{
    match parse_ipv4(t) {
        Some(ip) => Some(ip),
        None => match parse_ipv6(t) {
            Some(g) => {
                proof { lemma_ipv6_parse_len(t@); }
                Some(HostIp::V6(g[0], g[1], g[2], g[3], g[4], g[5], g[6], g[7]))
            },
            None => None,
        },
    }
}

/// Parses a dotted decimal IPv4 address.
pub fn parse_ipv4(t: &str) -> (r: Option<HostIp>)
    ensures
        r == ipv4_parse(t@),
{
    let n = t.unicode_len();
    let mut octets: Vec<u8> = Vec::new();
    let mut pos: usize = 0;
    let mut k: usize = 0;
    assert(t@.skip(0) =~= t@);
    while k < 4
        invariant
            n == t@.len(),
            0 <= k <= 4,
            pos <= n,
            octets@.len() == k,
            parse_octets(t@, 4) == (match parse_octets(t@.skip(pos as int), (4 - k) as nat) {
                Some(more) => Some(octets@ + more),
                None => None,
            }),
            k < 4,
        decreases 4 - k,
    {
        let run = digit_run_from(t, pos);
        let ghost cur = t@.skip(pos as int);
        proof { lemma_digit_run_bound(cur); }
        assert(cur.take(run as int) =~= t@.subrange(pos as int, pos + run));
        if run < 1 || run > 3 {
            return None;
        }
        let head = t.substring_char(pos, pos + run);
        if run > 1 && head.get_char(0) == '0' {
            return None;
        }
        let value = match parse_unsigned_text(head, 255) {
            Some(v) => v,
            None => return None,
        };
        assert(head@ == cur.take(run as int));
        assert(octet_value(head@) == Some(value as u8));
        let ghost rest = cur.skip(run as int);
        assert(rest =~= t@.skip(pos + run));
        if k == 3 {
            if pos + run != n {
                return None;
            }
            octets.push(value as u8);
            assert(octets@ =~= octets@.take(3) + seq![value as u8]);
            return Some(HostIp::V4(octets[0], octets[1], octets[2], octets[3]));
        }
        if pos + run >= n || t.get_char(pos + run) != '.' {
            return None;
        }
        assert(rest.drop_first() =~= t@.skip(pos + run + 1));
        octets.push(value as u8);
        pos = pos + run + 1;
        k = k + 1;
    }
    None
}

/// Four octets in dotted decimal.
pub fn dotted_string(a: u8, b: u8, c: u8, d: u8) -> (r: String)
    ensures
        r@ == dotted_text(a, b, c, d),
{
    let mut r = decimal_string(a as u64);
    r.append(".");
    r.append(decimal_string(b as u64).as_str());
    r.append(".");
    r.append(decimal_string(c as u64).as_str());
    r.append(".");
    r.append(decimal_string(d as u64).as_str());
    r
}

impl HostIp {
    /// The loopback address 127.0.0.1.
    pub fn localhost() -> (r: HostIp)
        ensures
            r == HostIp::V4(127, 0, 0, 1),
    {
        HostIp::V4(127, 0, 0, 1)
    }

    pub fn to_string(&self) -> (r: String)
        ensures
            r@ == ip_text(*self),
    {
        match self {
            HostIp::V4(a, b, c, d) => dotted_string(*a, *b, *c, *d),
            HostIp::V6(a, b, c, d, e, f, g, h) => {
                let groups: Vec<u16> = vec![*a, *b, *c, *d, *e, *f, *g, *h];
                assert(groups@ =~= seq![*a, *b, *c, *d, *e, *f, *g, *h]);
                ipv6_string(&groups)
            },
        }
    }
}

/// A forward as values: host address, host port, guest port, protocol.
pub type ForwardView = (HostIp, u16, u16, Protocol);

/// The forward four optional texts describe, with the loopback address and
/// TCP when they are left out.
pub open spec fn forward_from_values(
    protocol: Option<Seq<char>>,
    host_ip: Option<Seq<char>>,
    host_port: Seq<char>,
    guest_port: Seq<char>,
) -> Option<ForwardView> {
    let ip = match host_ip {
        Some(t) => ip_parse(t),
        None => Some(HostIp::V4(127, 0, 0, 1)),
    };
    let proto = match protocol {
        Some(t) => parse_protocol(t),
        None => Some(Protocol::Tcp),
    };
    match (ip, parse_unsigned(host_port, 65535), parse_unsigned(guest_port, 65535), proto) {
        (Some(i), Some(h), Some(g), Some(p)) => Some((i, h as u16, g as u16, p)),
        _ => None,
    }
}

/// The forward the groups of the QEMU format describe.
pub open spec fn forward_from_qemu_groups(caps: Option<Seq<Option<Seq<char>>>>) -> Option<ForwardView> {
    match caps {
        Some(c) => if c.len() == 5 && c[3] is Some && c[4] is Some {
            forward_from_values(c[1], c[2], c[3]->0, c[4]->0)
        } else {
            None
        },
        None => None,
    }
}

/// The forward the groups of the command line format describe.
pub open spec fn forward_from_groups(caps: Option<Seq<Option<Seq<char>>>>) -> Option<ForwardView> {
    match caps {
        Some(c) => if c.len() == 7 && c[3] is Some && c[4] is Some {
            forward_from_values(c[6], c[2], c[3]->0, c[4]->0)
        } else {
            None
        },
        None => None,
    }
}

/// A forward as it is displayed: `127.0.0.1:8000:80/tcp`.
pub open spec fn forward_text(f: ForwardView) -> Seq<char> {
    ip_text(f.0) + ":"@ + decimal(f.1 as nat) + ":"@ + decimal(f.2 as nat) + "/"@ + protocol_name(f.3)
}

/// A forward in QEMU's format: `tcp:127.0.0.1:8000-:80`.
pub open spec fn forward_qemu_text(f: ForwardView) -> Seq<char> {
    protocol_name(f.3) + ":"@ + ip_text(f.0) + ":"@ + decimal(f.1 as nat) + "-:"@ + decimal(f.2 as nat)
}

/// A port of the host forwarded to a port of the guest.
#[derive(Debug, Clone, Copy, PartialEq, Eq)]
pub struct PortForward {
    host_ip: HostIp,
    host_port: u16,
    guest_port: u16,
    protocol: Protocol,
}

impl View for PortForward {
    type V = ForwardView;

    closed spec fn view(&self) -> ForwardView {
        (self.host_ip, self.host_port, self.guest_port, self.protocol)
    }
}

fn optional_str(o: &Option<String>) -> (r: Option<&str>)
    ensures
        r matches Some(s) ==> o matches Some(t) && s@ == t@,
        r is None ==> o is None,
{
    match o {
        Some(s) => Some(s.as_str()),
        None => None,
    }
}

impl PortForward {
    pub fn new(host_ip: HostIp, host_port: u16, guest_port: u16, protocol: Protocol) -> (r: PortForward)
        ensures
            r@ == (host_ip, host_port, guest_port, protocol),
    {
        PortForward { host_ip, host_port, guest_port, protocol }
    }

    pub fn get_host_ip(&self) -> (r: HostIp)
        ensures
            r == self@.0,
    {
        self.host_ip
    }

    pub fn get_host_port(&self) -> (r: u16)
        ensures
            r == self@.1,
    {
        self.host_port
    }

    pub fn get_guest_port(&self) -> (r: u16)
        ensures
            r == self@.2,
    {
        self.guest_port
    }

    pub fn get_protocol(&self) -> (r: Protocol)
        ensures
            r == self@.3,
    {
        self.protocol
    }

    /// The forward four optional texts describe.
    fn from_value(protocol: Option<&str>, host_ip: Option<&str>, host_port: &str, guest_port: &str) -> (r: Result<PortForward, ()>)
        ensures
            r matches Ok(f) ==> forward_from_values(
                match protocol { Some(t) => Some(t@), None => None },
                match host_ip { Some(t) => Some(t@), None => None },
                host_port@, guest_port@) == Some(f@),
            r is Err ==> forward_from_values(
                match protocol { Some(t) => Some(t@), None => None },
                match host_ip { Some(t) => Some(t@), None => None },
                host_port@, guest_port@) is None,
    {
        let ip = match host_ip {
            Some(t) => match parse_ip(t) {
                Some(i) => i,
                None => return Err(()),
            },
            None => HostIp::localhost(),
        };
        let h = match parse_unsigned_text(host_port, 65535) {
            Some(h) => h as u16,
            None => return Err(()),
        };
        let g = match parse_unsigned_text(guest_port, 65535) {
            Some(g) => g as u16,
            None => return Err(()),
        };
        let p = match protocol {
            Some(t) => match Protocol::from_str(t) {
                Ok(p) => p,
                Err(_) => return Err(()),
            },
            None => Protocol::Tcp,
        };
        Ok(PortForward::new(ip, h, g, p))
    }

    /// The forward QEMU's capture groups describe: `[protocol]`, `[host
    /// address]`, host port and guest port.
    pub fn from_qemu_groups(caps: Option<Vec<Option<String>>>) -> (r: Result<PortForward, String>)
        ensures
            forward_from_qemu_groups(captures_view(caps)) matches Some(f) ==> (r matches Ok(p) && p@ == f),
            forward_from_qemu_groups(captures_view(caps)) is None ==> (r matches Err(e) && e@ == QEMU_FORMAT_ERROR@),
    {
        match caps {
            None => Err(QEMU_FORMAT_ERROR.to_string()),
            Some(c) => {
                if c.len() == 5 && c[3].is_some() && c[4].is_some() {
                    let host_port = optional_str(&c[3]).unwrap();
                    let guest_port = optional_str(&c[4]).unwrap();
                    match Self::from_value(optional_str(&c[1]), optional_str(&c[2]), host_port, guest_port) {
                        Ok(f) => Ok(f),
                        Err(_) => Err(QEMU_FORMAT_ERROR.to_string()),
                    }
                } else {
                    Err(QEMU_FORMAT_ERROR.to_string())
                }
            },
        }
    }

    /// Parses a forward in QEMU's format, `[tcp|udp]:[hostaddr]:hostport-:guestport`.
    pub fn from_qemu(value: &str) -> (r: Result<PortForward, String>)
        ensures
            forward_from_qemu_groups(regex_captures(QEMU_PORT_PATTERN@, value@)) matches Some(f) ==> (r matches Ok(p) && p@ == f),
            forward_from_qemu_groups(regex_captures(QEMU_PORT_PATTERN@, value@)) is None ==> (r matches Err(e) && e@ == QEMU_FORMAT_ERROR@),
    {
        Self::from_qemu_groups(capture_groups(QEMU_PORT_PATTERN, value))
    }

    /// The forward the command line's capture groups describe:
    /// `[host_ip:]host_port:guest_port[/protocol]`.
    pub fn from_groups(caps: Option<Vec<Option<String>>>) -> (r: Result<PortForward, String>)
        ensures
            forward_from_groups(captures_view(caps)) matches Some(f) ==> (r matches Ok(p) && p@ == f),
            forward_from_groups(captures_view(caps)) is None ==> (r matches Err(e) && e@ == FORMAT_ERROR@),
    {
        match caps {
            None => Err(FORMAT_ERROR.to_string()),
            Some(c) => {
                if c.len() == 7 && c[3].is_some() && c[4].is_some() {
                    let host_port = optional_str(&c[3]).unwrap();
                    let guest_port = optional_str(&c[4]).unwrap();
                    match Self::from_value(optional_str(&c[6]), optional_str(&c[2]), host_port, guest_port) {
                        Ok(f) => Ok(f),
                        Err(_) => Err(FORMAT_ERROR.to_string()),
                    }
                } else {
                    Err(FORMAT_ERROR.to_string())
                }
            },
        }
    }

    /// Parses a forward as written on the command line:
    /// `[host_ip:]host_port:guest_port[/(udp|tcp)]`.
    pub fn from_str(value: &str) -> (r: Result<PortForward, String>)
        ensures
            forward_from_groups(regex_captures(PORT_PATTERN@, value@)) matches Some(f) ==> (r matches Ok(p) && p@ == f),
            forward_from_groups(regex_captures(PORT_PATTERN@, value@)) is None ==> (r matches Err(e) && e@ == FORMAT_ERROR@),
    {
        Self::from_groups(capture_groups(PORT_PATTERN, value))
    }

    /// The forward in QEMU's format: `tcp:127.0.0.1:8000-:80`.
    pub fn to_qemu(&self) -> (r: String)
        ensures
            r@ == forward_qemu_text(self@),
    {
        let mut r = self.protocol.to_string();
        r.append(":");
        r.append(self.host_ip.to_string().as_str());
        r.append(":");
        r.append(decimal_string(self.host_port as u64).as_str());
        r.append("-:");
        r.append(decimal_string(self.guest_port as u64).as_str());
        r
    }

    /// The forward as it is displayed: `127.0.0.1:8000:80/tcp`.
    pub fn to_string(&self) -> (r: String)
        ensures
            r@ == forward_text(self@),
    {
        let mut r = self.host_ip.to_string();
        r.append(":");
        r.append(decimal_string(self.host_port as u64).as_str());
        r.append(":");
        r.append(decimal_string(self.guest_port as u64).as_str());
        r.append("/");
        r.append(self.protocol.to_string().as_str());
        r
    }
}

/// The displayed text of a forward reads back as the same forward, where
/// the port pattern captures that text in its groups as written: the
/// address in the second group, the ports in the third and fourth and the
/// protocol in the sixth.
pub proof fn lemma_displayed_forward_read_back(f: ForwardView)
    requires
        regex_captures(PORT_PATTERN@, forward_text(f)) matches Some(c) && c.len() == 7
            && c[2] == Some(ip_text(f.0)) && c[3] == Some(decimal(f.1 as nat))
            && c[4] == Some(decimal(f.2 as nat)) && c[6] == Some(protocol_name(f.3)),
    ensures
        forward_from_groups(regex_captures(PORT_PATTERN@, forward_text(f))) == Some(f),
{
    lemma_forward_values_read_back(f);
}

} // verus!
