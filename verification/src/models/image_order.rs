use vstd::prelude::*;
use core::cmp::Ordering;
use vstd::std_specs::cmp::PartialOrdSpecImpl;
use crate::models::image::Image;
use crate::text::{
    compare_text, decimal, is_digit, lemma_decimal_read_back, lemma_lex_sign_flips, lemma_lex_sign_reflexive, lex_sign,
    parse_unsigned, parse_unsigned_text,
};

verus! {

/// The text an image's version is compared by: its first name, empty when
/// it has none.
pub open spec fn first_name(img: Image) -> Seq<char> {
    if img.names@.len() > 0 { img.names@[0]@ } else { Seq::empty() }
}

/// How two versions compare: as numbers when both are numbers that fit 32
/// bits, else as texts.
pub open spec fn version_sign(a: Seq<char>, b: Seq<char>) -> int {
    match (parse_unsigned(a, 4294967295), parse_unsigned(b, 4294967295)) {
        (Some(x), Some(y)) => if x < y { -1 } else if x > y { 1 } else { 0 },
        _ => lex_sign(a, b),
    }
}

/// How two images compare: by vendor, then by version.
pub open spec fn image_sign(a: Image, b: Image) -> int {
    let v = lex_sign(a.vendor@, b.vendor@);
    if v != 0 { v } else { version_sign(first_name(a), first_name(b)) }
}

/// The ordering a sign stands for.
pub open spec fn ordering_of(s: int) -> Ordering {
    if s < 0 { Ordering::Less } else if s > 0 { Ordering::Greater } else { Ordering::Equal }
}

/// The ordering a small sign stands for.
pub open spec fn ordering_of_small(s: i8) -> Ordering {
    if s < 0 { Ordering::Less } else if s > 0 { Ordering::Greater } else { Ordering::Equal }
}

fn ordering_from(s: i8) -> (r: Ordering)
    ensures
        r == ordering_of_small(s),
{
    if s < 0 { Ordering::Less } else if s > 0 { Ordering::Greater } else { Ordering::Equal }
}

impl Image {
    /// Images sort by vendor, then by version: numerically when both
    /// versions are numbers, else as text.
    pub fn cmp(&self, other: &Image) -> (r: Ordering)
        ensures
            r == ordering_of(image_sign(*self, *other)),
    {
        let v = compare_text(self.vendor.as_str(), other.vendor.as_str());
        if v != 0 {
            return ordering_from(v);
        }
        let a: &str = if self.names.len() > 0 { self.names[0].as_str() } else { "" };
        let b: &str = if other.names.len() > 0 { other.names[0].as_str() } else { "" };
        proof {
            reveal_strlit("");
            assert(""@ =~= Seq::<char>::empty());
        }
        match (parse_unsigned_text(a, 4294967295), parse_unsigned_text(b, 4294967295)) {
            (Some(x), Some(y)) => {
                if x < y { Ordering::Less } else if x > y { Ordering::Greater } else { Ordering::Equal }
            },
            _ => ordering_from(compare_text(a, b)),
        }
    }
}

impl PartialOrd for Image {
    fn partial_cmp(&self, other: &Image) -> (r: Option<Ordering>) {
        Some(self.cmp(other))
    }
}

impl PartialOrdSpecImpl for Image {
    open spec fn obeys_partial_cmp_spec() -> bool {
        true
    }

    open spec fn partial_cmp_spec(&self, other: &Image) -> Option<Ordering> {
        Some(ordering_of(image_sign(*self, *other)))
    }
}

/// Image order is antisymmetric: comparing two images the other way round
/// gives the opposite answer, and an image compares equal to itself.
pub proof fn lemma_image_order_antisymmetric(a: Image, b: Image)
    ensures
        image_sign(a, b) == -image_sign(b, a),
        image_sign(a, a) == 0,
{
    lemma_lex_sign_flips(a.vendor@, b.vendor@);
    lemma_lex_sign_flips(first_name(a), first_name(b));
    lemma_lex_sign_reflexive(a.vendor@);
    lemma_lex_sign_reflexive(first_name(a));
}

/// Two images of one vendor sort by their versions, the first of their
/// names, whatever their other names; versions that are numbers compare as
/// numbers, so the image of the lower version sorts first.
pub proof fn lemma_same_vendor_sorts_by_version(a: Image, b: Image, x: nat, y: nat)
    requires
        a.vendor@ == b.vendor@,
        a.names@.len() > 0,
        b.names@.len() > 0,
    ensures
        image_sign(a, b) == version_sign(a.names@[0]@, b.names@[0]@),
        a.names@[0]@ == decimal(x) && b.names@[0]@ == decimal(y) && x <= 4294967295 && y <= 4294967295 ==> {
            &&& x < y ==> ordering_of(image_sign(a, b)) == Ordering::Less
            &&& x == y ==> ordering_of(image_sign(a, b)) == Ordering::Equal
            &&& x > y ==> ordering_of(image_sign(a, b)) == Ordering::Greater
        },
{
    lemma_lex_sign_reflexive(a.vendor@);
    lemma_decimal_read_back(x);
    lemma_decimal_read_back(y);
    assert(is_digit(decimal(x)[0]));
    assert(is_digit(decimal(y)[0]));
}

} // verus!
