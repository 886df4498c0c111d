use vstd::prelude::*;
use vstd::string::{StrSliceExecFns, StringExecFns};
use crate::text::{decimal, decimal_string, parse_unsigned, parse_unsigned_text};

verus! {

/// The number of bytes in one unit of power `p`: bytes, KiB, MiB, GiB, TiB.
pub open spec fn unit_bytes(p: nat) -> nat {
    if p == 0 { 1 } else if p == 1 { 1024 } else if p == 2 { 1048576 } else if p == 3 { 1073741824 }
    else { 1099511627776 }
}

/// The letter of the unit of power `p`.
pub open spec fn unit_letter(p: nat) -> char {
    if p == 0 { 'B' } else if p == 1 { 'K' } else if p == 2 { 'M' } else if p == 3 { 'G' } else { 'T' }
}

/// The largest unit in which a size reads at least 10, bytes when none.
pub open spec fn base_power(bytes: nat) -> nat {
    if bytes >= 10 * unit_bytes(4) { 4 } else if bytes >= 10 * unit_bytes(3) { 3 }
    else if bytes >= 10 * unit_bytes(2) { 2 } else if bytes >= 10 * unit_bytes(1) { 1 } else { 0 }
}

/// The power of the unit a size is shown in: the largest unit in which it
/// reads at least 10, moved one unit up when its rounded value there would
/// be 10000 or more, so that at most four digits show.
pub open spec fn display_power(bytes: nat) -> nat {
    let base = base_power(bytes);
    if base < 4 && rounded_value(bytes, base) >= 10000 { base + 1 } else { base }
}

/// The size in units of power `p`, rounded to the nearest whole unit with
/// halves rounded up.
pub open spec fn rounded_value(bytes: nat, p: nat) -> nat {
    let d = unit_bytes(p);
    if bytes % d >= d - d / 2 && d > 1 { bytes / d + 1 } else { bytes / d }
}

/// A shown size reads at least 10 in every unit above bytes, and keeps to
/// four digits in every unit below the largest.
pub proof fn lemma_size_digits(bytes: nat)
    ensures
        display_power(bytes) > 0 ==> rounded_value(bytes, display_power(bytes)) >= 10,
        display_power(bytes) < 4 ==> rounded_value(bytes, display_power(bytes)) <= 9999,
{
    let b = base_power(bytes);
    let d = unit_bytes(b);
    assert(d > 0);
    if b < 4 {
        let e = unit_bytes(b + 1);
        assert(e == 1024 * d);
        assert(bytes < 10 * e);
        if rounded_value(bytes, b) >= 10000 {
            assert(bytes / d >= 9999);
            assert(bytes >= 9999 * d) by (nonlinear_arith) requires bytes / d >= 9999, d > 0;
            assert(bytes / e >= 9) by (nonlinear_arith) requires bytes >= 9999 * d, e == 1024 * d, d > 0;
            assert(bytes / e < 10) by (nonlinear_arith) requires bytes < 10 * e, e > 0;
            assert(bytes % e >= e - e / 2) by {
                vstd::arithmetic::div_mod::lemma_fundamental_div_mod(bytes as int, e as int);
                if b == 0 { } else if b == 1 { } else if b == 2 { } else { }
            }
            assert(rounded_value(bytes, b + 1) >= 10);
            assert(rounded_value(bytes, b + 1) <= 10);
        } else {
            if b > 0 {
                assert(bytes >= 10 * d);
                assert(bytes / d >= 10) by (nonlinear_arith) requires bytes >= 10 * d, d > 0;
            }
        }
    }
    if b == 4 {
        assert(bytes / unit_bytes(4) >= 10) by (nonlinear_arith) requires bytes >= 10 * unit_bytes(4), unit_bytes(4) > 0;
    }
}

/// How a size is shown: the rounded value, a space and the unit letter.
pub open spec fn size_text(bytes: nat) -> Seq<char> {
    decimal(rounded_value(bytes, display_power(bytes))) + seq![' ', unit_letter(display_power(bytes))]
}

/// The power a unit letter stands for.
pub open spec fn suffix_power(c: char) -> Option<nat> {
    if c == 'B' { Some(0) } else if c == 'K' { Some(1) } else if c == 'M' { Some(2) }
    else if c == 'G' { Some(3) } else if c == 'T' { Some(4) } else { None }
}

/// The number of bytes a text such as `4G` stands for: a number and a unit
/// letter, with a product that fits in `usize`.
pub open spec fn parse_size(value: Seq<char>) -> Option<nat> {
    if value.len() == 0 {
        None
    } else {
        match suffix_power(value.last()) {
            None => None,
            Some(p) => match parse_unsigned(value.drop_last(), usize::MAX as nat) {
                None => None,
                Some(n) => if n * unit_bytes(p) <= usize::MAX { Some(n * unit_bytes(p)) } else { None },
            },
        }
    }
}

/// The message a text that is no size is rejected with.
pub open spec fn size_error(value: Seq<char>) -> Seq<char> {
    "Cannot parse data size '"@ + value
        + "'. The input should be a number followed by a letter (B, K, M, G or T) for bytes, kilobytes, etc. Example: 1G for one gigabyte."@
}

/// An amount of memory or disk, in bytes.
#[derive(Debug, Clone, Copy, PartialEq, Eq, Structural)]
pub struct DataSize {
    bytes: usize,
}

impl View for DataSize {
    type V = nat;

    closed spec fn view(&self) -> nat {
        self.bytes as nat
    }
}

impl Default for DataSize {
    fn default() -> (r: DataSize)
        ensures
            r@ == 0,
    {
        DataSize { bytes: 0 }
    }
}

/// The bytes of one unit of power `p`.
fn unit_bytes_exec(p: u64) -> (r: u64)
    requires
        p < 5,
    ensures
        r == unit_bytes(p as nat),
{
    if p == 0 { 1 } else if p == 1 { 1024 } else if p == 2 { 1048576 } else if p == 3 { 1073741824 }
    else { 1099511627776 }
}

/// The letter of the unit of power `p`, as text.
fn unit_str(p: u64) -> (r: &'static str)
    requires
        p < 5,
    ensures
        r@ == seq![unit_letter(p as nat)],
{
    proof { reveal_strlit("B"); reveal_strlit("K"); reveal_strlit("M"); reveal_strlit("G"); reveal_strlit("T"); }
    if p == 0 { "B" } else if p == 1 { "K" } else if p == 2 { "M" } else if p == 3 { "G" } else { "T" }
}

impl DataSize {
    pub fn new(bytes: usize) -> (r: DataSize)
        ensures
            r@ == bytes,
    {
        DataSize { bytes }
    }

    pub fn get_bytes(&self) -> (r: usize)
        ensures
            r == self@,
    {
        self.bytes
    }

    /// The unit power this size is shown in.
    fn get_power(&self) -> (r: u64)
        ensures
            r == display_power(self@),
            r < 5,
    {
        let bytes = self.bytes as u64;
        let mut power: u64 = if bytes >= 10 * 1099511627776 { 4 } else if bytes >= 10 * 1073741824 { 3 }
            else if bytes >= 10 * 1048576 { 2 } else if bytes >= 10 * 1024 { 1 } else { 0 };
        if power < 4 && self.to_value_at(power) >= 10000 {
            power = power + 1;
        }
        power
    }

    /// The size in units of power `power`, rounded to the nearest unit.
    fn to_value_at(&self, power: u64) -> (r: u64)
        requires
            power < 5,
        ensures
            r == rounded_value(self@, power as nat),
    {
        let bytes = self.bytes as u64;
        let d = unit_bytes_exec(power);
        let q = bytes / d;
        if bytes % d >= d - d / 2 && d > 1 {
            assert(q < u64::MAX) by (nonlinear_arith)
                requires q == bytes / d, d > 1;
            q + 1
        } else {
            q
        }
    }

    /// The size as it is shown: `1024 K`, `10 M`, `11 G`.
    pub fn to_size(&self) -> (r: String)
        ensures
            r@ == size_text(self@),
    {
        let power = self.get_power();
        let mut text = decimal_string(self.to_value_at(power));
        proof { reveal_strlit(" "); }
        text.append(" ");
        text.append(unit_str(power));
        text
    }

    /// The size rounded to the unit `total` is shown in, so that a used and
    /// a total size read as a fraction of one unit.
    pub fn to_value_in(&self, total: &DataSize) -> (r: u64)
        ensures
            r == rounded_value(self@, display_power(total@)),
    {
        self.to_value_at(total.get_power())
    }

    /// Parses a size such as `512M` or `1G`.
    pub fn from_str(value: &str) -> (r: Result<DataSize, String>)
        ensures
            r matches Ok(d) ==> parse_size(value@) == Some(d@),
            r matches Err(e) ==> parse_size(value@) is None && e@ == size_error(value@),
    {
        let n = value.unicode_len();
        if n == 0 {
            return Err(Self::error(value));
        }
        let suffix = value.get_char(n - 1);
        let power: u64 = if suffix == 'B' { 0 } else if suffix == 'K' { 1 } else if suffix == 'M' { 2 }
            else if suffix == 'G' { 3 } else if suffix == 'T' { 4 } else { return Err(Self::error(value)); };
        let size = value.substring_char(0, n - 1);
        assert(size@ =~= value@.drop_last());
        match parse_unsigned_text(size, usize::MAX as u64) {
            None => Err(Self::error(value)),
            Some(count) => {
                match count.checked_mul(unit_bytes_exec(power)) {
                    Some(bytes) => {
                        if bytes <= usize::MAX as u64 {
                            Ok(DataSize { bytes: bytes as usize })
                        } else {
                            Err(Self::error(value))
                        }
                    },
                    None => Err(Self::error(value)),
                }
            },
        }
    }

    fn error(value: &str) -> (r: String)
        ensures
            r@ == size_error(value@),
    {
        let mut e = String::from_str("Cannot parse data size '");
        e.append(value);
        e.append("'. The input should be a number followed by a letter (B, K, M, G or T) for bytes, kilobytes, etc. Example: 1G for one gigabyte.");
        e
    }
}

} // verus!
