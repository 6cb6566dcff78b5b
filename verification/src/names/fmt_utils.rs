use crate::text::to_chars;
use vstd::prelude::*;
use vstd::string::{StrSliceExecFns, StringSliceAdditionalSpecFns};
use vstd::utf8::{
    decode_utf8, decode_utf8_split, encode_utf8, encode_utf8_decode_utf8, encode_utf8_valid_utf8,
    is_char_boundary, is_char_boundary_start_end_of_seq, valid_utf8, valid_utf8_split,
};

verus! {

/// The last place at or before `n` where a character of the UTF-8 text `bytes` starts
/// or the text ends.
pub open spec fn floor_boundary(bytes: Seq<u8>, n: int) -> int
    decreases n,
{
    if n <= 0 {
        0
    } else if is_char_boundary(bytes, n) {
        n
    } else {
        floor_boundary(bytes, n - 1)
    }
}

/// The place that `floor_boundary` gives is between characters, within the text
/// and no later than `n`.
pub proof fn lemma_floor_boundary(bytes: Seq<u8>, n: int)
    requires
        valid_utf8(bytes),
    ensures
        0 <= floor_boundary(bytes, n) <= bytes.len(),
        n >= 0 ==> floor_boundary(bytes, n) <= n,
        is_char_boundary(bytes, floor_boundary(bytes, n)),
    decreases n,
{
    is_char_boundary_start_end_of_seq(bytes);
    if n > 0 && !is_char_boundary(bytes, n) {
        lemma_floor_boundary(bytes, n - 1);
    }
}

/// Past the end of the text, the last place between characters is the end.
pub proof fn lemma_floor_boundary_at_end(bytes: Seq<u8>, n: int)
    requires
        valid_utf8(bytes),
        n >= bytes.len(),
    ensures
        floor_boundary(bytes, n) == bytes.len(),
    decreases n - bytes.len(),
{
    is_char_boundary_start_end_of_seq(bytes);
    if n > bytes.len() {
        reveal_with_fuel(is_char_boundary, 1);
        assert(!is_char_boundary(bytes, n));
        lemma_floor_boundary_at_end(bytes, n - 1);
    }
}

/// The longest start of a text that ends between characters and whose UTF-8
/// form takes no more than `bytes` bytes.
pub open spec fn byte_prefix(s: Seq<char>, bytes: int) -> Seq<char> {
    decode_utf8(encode_utf8(s).take(floor_boundary(encode_utf8(s), bytes)))
}

/// The longest start of `s` that ends between characters and takes no more than
/// `bytes` bytes.
pub fn slice_up_to_bytes(s: &str, bytes: usize) -> (r: &str)
    ensures
        r@ == byte_prefix(s@, bytes as int),
        r.spec_bytes() == s.spec_bytes().take(floor_boundary(s.spec_bytes(), bytes as int)),
        r.spec_bytes().len() <= bytes,
        r@ == s@.take(r@.len() as int),
        r@.len() <= s@.len(),
{
    let ghost all = s.spec_bytes();
    proof {
        encode_utf8_valid_utf8(s@);
        is_char_boundary_start_end_of_seq(all);
        lemma_floor_boundary(all, bytes as int);
    }
    let mut idx = bytes;
    while !s.is_char_boundary(idx)
        invariant
            all == s.spec_bytes(),
            valid_utf8(all),
            is_char_boundary(all, 0),
            idx <= bytes,
            floor_boundary(all, idx as int) == floor_boundary(all, bytes as int),
        decreases idx,
    {
        idx -= 1;
    }
    let (left, right) = s.split_at(idx);
    proof {
        let k = idx as int;
        assert(floor_boundary(all, k) == k);
        assert(all.subrange(0, k) == all.take(k));
        decode_utf8_split(all, k);
        valid_utf8_split(all, k);
        encode_utf8_decode_utf8(s@);
        encode_utf8_decode_utf8(left@);
        let rest = decode_utf8(all.subrange(k, all.len() as int));
        assert(s@ == left@ + rest);
        assert((left@ + rest).take(left@.len() as int) == left@);
    }
    left
}

/// The first `max` characters of `s`, or all of it where it has fewer.
pub fn slice_up_to_chars(s: &str, max: usize) -> (r: &str)
    ensures
        r@ == if max <= s@.len() {
            s@.take(max as int)
        } else {
            s@
        },
{
    let n = s.unicode_len();
    if max <= n {
        let r = s.substring_char(0, max);
        assert(s@.subrange(0, max as int) == s@.take(max as int));
        r
    } else {
        s
    }
}

/// The plain letter that a sans-serif italic letter of mathematics looks like;
/// any other character is itself.
pub open spec fn plain_letter(c: char) -> char {
    if '\u{1D622}' <= c <= '\u{1D63B}' {
        ((c as u32 - 0x1D622) as u32 + 'a' as u32) as char
    } else if '\u{1D608}' <= c <= '\u{1D621}' {
        ((c as u32 - 0x1D608) as u32 + 'A' as u32) as char
    } else {
        c
    }
}

/// The plain letter for one character.
pub fn to_plain_letter(c: char) -> (r: char)
    ensures
        r == plain_letter(c),
{
    if '\u{1D622}' <= c && c <= '\u{1D63B}' {
        let d: u8 = (c as u32 - 0x1D622) as u8;
        (d + 97u8) as char
    } else if '\u{1D608}' <= c && c <= '\u{1D621}' {
        let d: u8 = (c as u32 - 0x1D608) as u8;
        (d + 65u8) as char
    } else {
        c
    }
}

/// The text with every italic letter of mathematics replaced by the plain letter
/// that it looks like.
pub fn no_confusable_italics(s: &str) -> (r: String)
    ensures
        r@ == s@.map_values(|c: char| plain_letter(c)),
{
    let chars = to_chars(s);
    let mut r = String::new();
    let mut i: usize = 0;
    while i < chars.len()
        invariant
            i <= chars.len(),
            chars@ == s@,
            r@ == s@.take(i as int).map_values(|c: char| plain_letter(c)),
        decreases chars.len() - i,
    {
        let c = to_plain_letter(chars[i]);
        assert(s@.take(i + 1) == s@.take(i as int).push(s@[i as int]));
        assert(s@.take(i + 1).map_values(|c: char| plain_letter(c)) == s@.take(i as int).map_values(
            |c: char| plain_letter(c),
        ).push(c));
        r.push(c);
        i += 1;
    }
    assert(s@.take(i as int) == s@);
    r
}

/// What `rustrict::trim_whitespace` leaves of a text.
pub uninterp spec fn trimmed_whitespace(s: Seq<char>) -> Seq<char>;

/// `rustrict::trim_whitespace`: the text without what that crate takes for
/// whitespace at its two ends.
#[verifier::external_body]
pub(crate) fn trim_whitespace(s: &str) -> (r: &str)
    ensures
        r@ == trimmed_whitespace(s@),
{
    rustrict::trim_whitespace(s)
}

/// What `rustrict::trim_to_width` leaves of a text for a budget of widths.
pub uninterp spec fn width_trimmed(s: Seq<char>, budget: nat) -> Seq<char>;

/// `rustrict::trim_to_width`: the start of the text that is no wider than
/// `budget` letters `m`. The crate multiplies the budget by ten.
#[verifier::external_body]
pub(crate) fn trim_to_width(s: &str, budget: usize) -> (r: &str)
    requires
        budget * 10 <= usize::MAX,
    ensures
        r@ == width_trimmed(s@, budget as nat),
{
    rustrict::trim_to_width(s, budget)
}

/// What `rustrict::Censor` makes of a text when it censors whole words that are
/// inappropriate, first letter and all.
pub uninterp spec fn censored(s: Seq<char>) -> Seq<char>;

/// `rustrict::Censor::censor` on a censor made by `from_str`, with the threshold
/// for censoring first characters set to `Type::INAPPROPRIATE`.
#[verifier::external_body]
pub(crate) fn censor(s: &str) -> (r: String)
    ensures
        r@ == censored(s@),
{
    rustrict::Censor::from_str(s).with_censor_first_character_threshold(
        rustrict::Type::INAPPROPRIATE,
    ).censor()
}

/// The start of the text without whitespace at its ends that fits in `bytes` bytes.
pub fn trim_and_slice_up_to(s: &str, bytes: usize) -> (r: &str)
    ensures
        r@ == byte_prefix(trimmed_whitespace(s@), bytes as int),
        r.spec_bytes().len() <= bytes,
{
    slice_up_to_bytes(trim_whitespace(s), bytes)
}

} // verus!
