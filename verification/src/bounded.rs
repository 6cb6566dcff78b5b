use arrayvec::{ArrayString, CapacityError};
use vstd::prelude::*;
use vstd::string::StringSliceAdditionalSpecFns;

verus! {

/// `arrayvec::ArrayString`: a text in an array of `CAP` bytes. What it holds is
/// known by the names below, one for each capacity in use.
#[verifier::external_type_specification]
#[verifier::external_body]
pub struct ExArrayString<const CAP: usize>(ArrayString<CAP>);

/// `arrayvec::CapacityError`: what `ArrayString::from` fails with. Nothing is
/// read from it.
#[verifier::external_type_specification]
#[verifier::external_body]
#[verifier::reject_recursive_types(T)]
pub struct ExCapacityError<T>(CapacityError<T>);

/// The characters that a string of capacity 12 holds.
pub uninterp spec fn text12(a: ArrayString<12>) -> Seq<char>;

/// `ArrayString::<12>::from`: the string is made when the UTF-8 form of `s` fits
/// in 12 bytes, and then holds the characters of `s`; else the call fails.
#[verifier::external_body]
pub(crate) fn text12_from(s: &str) -> (r: Result<ArrayString<12>, CapacityError<()>>)
    ensures
        r is Ok <==> s.spec_bytes().len() <= 12,
        r matches Ok(a) ==> text12(a) == s@,
{
    ArrayString::from(s).map_err(CapacityError::simplify)
}

/// `ArrayString::<12>::as_str`: the characters held, which fit in 12 bytes.
#[verifier::external_body]
pub(crate) fn text12_as_str(a: &ArrayString<12>) -> (r: &str)
    ensures
        r@ == text12(*a),
        r.spec_bytes().len() <= 12,
{
    a.as_str()
}

/// `==` on `ArrayString<12>`: whether both hold the same characters.
#[verifier::external_body]
pub(crate) fn text12_eq(a: &ArrayString<12>, b: &ArrayString<12>) -> (r: bool)
    ensures
        r == (text12(*a) == text12(*b)),
{
    a == b
}

/// The characters that a string of capacity 16 holds.
pub uninterp spec fn text16(a: ArrayString<16>) -> Seq<char>;

/// `ArrayString::<16>::from`: the string is made when the UTF-8 form of `s` fits
/// in 16 bytes, and then holds the characters of `s`; else the call fails.
#[verifier::external_body]
pub(crate) fn text16_from(s: &str) -> (r: Result<ArrayString<16>, CapacityError<()>>)
    ensures
        r is Ok <==> s.spec_bytes().len() <= 16,
        r matches Ok(a) ==> text16(a) == s@,
{
    ArrayString::from(s).map_err(CapacityError::simplify)
}

/// `ArrayString::<16>::as_str`: the characters held, which fit in 16 bytes.
#[verifier::external_body]
pub(crate) fn text16_as_str(a: &ArrayString<16>) -> (r: &str)
    ensures
        r@ == text16(*a),
        r.spec_bytes().len() <= 16,
{
    a.as_str()
}

/// The characters that a string of capacity 28 holds.
pub uninterp spec fn text28(a: ArrayString<28>) -> Seq<char>;

/// `ArrayString::<28>::from`: the string is made when the UTF-8 form of `s` fits
/// in 28 bytes, and then holds the characters of `s`; else the call fails.
#[verifier::external_body]
pub(crate) fn text28_from(s: &str) -> (r: Result<ArrayString<28>, CapacityError<()>>)
    ensures
        r is Ok <==> s.spec_bytes().len() <= 28,
        r matches Ok(a) ==> text28(a) == s@,
{
    ArrayString::from(s).map_err(CapacityError::simplify)
}

/// `ArrayString::<28>::as_str`: the characters held, which fit in 28 bytes.
#[verifier::external_body]
pub(crate) fn text28_as_str(a: &ArrayString<28>) -> (r: &str)
    ensures
        r@ == text28(*a),
        r.spec_bytes().len() <= 28,
{
    a.as_str()
}

/// `==` on `ArrayString<28>`: whether both hold the same characters.
#[verifier::external_body]
pub(crate) fn text28_eq(a: &ArrayString<28>, b: &ArrayString<28>) -> (r: bool)
    ensures
        r == (text28(*a) == text28(*b)),
{
    a == b
}

/// The characters that a string of capacity 32 holds.
pub uninterp spec fn text32(a: ArrayString<32>) -> Seq<char>;

/// `ArrayString::<32>::from`: the string is made when the UTF-8 form of `s` fits
/// in 32 bytes, and then holds the characters of `s`; else the call fails.
#[verifier::external_body]
pub(crate) fn text32_from(s: &str) -> (r: Result<ArrayString<32>, CapacityError<()>>)
    ensures
        r is Ok <==> s.spec_bytes().len() <= 32,
        r matches Ok(a) ==> text32(a) == s@,
{
    ArrayString::from(s).map_err(CapacityError::simplify)
}

/// `ArrayString::<32>::as_str`: the characters held, which fit in 32 bytes.
#[verifier::external_body]
pub(crate) fn text32_as_str(a: &ArrayString<32>) -> (r: &str)
    ensures
        r@ == text32(*a),
        r.spec_bytes().len() <= 32,
{
    a.as_str()
}

/// The characters that a string of capacity 60 holds.
pub uninterp spec fn text60(a: ArrayString<60>) -> Seq<char>;

/// `ArrayString::<60>::from`: the string is made when the UTF-8 form of `s` fits
/// in 60 bytes, and then holds the characters of `s`; else the call fails.
#[verifier::external_body]
pub(crate) fn text60_from(s: &str) -> (r: Result<ArrayString<60>, CapacityError<()>>)
    ensures
        r is Ok <==> s.spec_bytes().len() <= 60,
        r matches Ok(a) ==> text60(a) == s@,
{
    ArrayString::from(s).map_err(CapacityError::simplify)
}

/// `ArrayString::<60>::as_str`: the characters held, which fit in 60 bytes.
#[verifier::external_body]
pub(crate) fn text60_as_str(a: &ArrayString<60>) -> (r: &str)
    ensures
        r@ == text60(*a),
        r.spec_bytes().len() <= 60,
{
    a.as_str()
}

/// Whether one run of bytes comes before another in the order of a dictionary:
/// at the first place where they differ it has the lesser byte, or it ends there
/// and the other goes on.
pub open spec fn bytes_before(a: Seq<u8>, b: Seq<u8>) -> bool
    decreases a.len(),
{
    if b.len() == 0 {
        false
    } else if a.len() == 0 {
        true
    } else if a[0] != b[0] {
        a[0] < b[0]
    } else {
        bytes_before(a.drop_first(), b.drop_first())
    }
}

/// `<` on `ArrayString<12>`, which is `<` on `str`: whether the UTF-8 form of the
/// first comes before that of the second, byte by byte.
#[verifier::external_body]
pub(crate) fn text12_lt(a: &ArrayString<12>, b: &ArrayString<12>) -> (r: bool)
    ensures
        r == bytes_before(vstd::utf8::encode_utf8(text12(*a)), vstd::utf8::encode_utf8(text12(*b))),
{
    a < b
}

} // verus!
