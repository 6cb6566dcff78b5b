use crate::bounded::{text12, text12_as_str, text12_eq, text12_from};
use arrayvec::ArrayString;
use vstd::prelude::*;
use vstd::string::StringExecFns;
use vstd::utf8::{encode_utf8, is_ascii_chars, is_ascii_chars_encode_utf8};

verus! {

/// The short name of a language, such as `en`.
#[derive(Clone, Copy, Debug, PartialEq, Eq, Hash, PartialOrd, Ord)]
pub struct LanguageId(ArrayString<12>);

/// A text takes more than twelve bytes, too many for a language id.
#[derive(Clone, Copy, Debug, PartialEq, Eq, Structural)]
pub struct InvalidLanguageId;

impl View for LanguageId {
    type V = Seq<char>;

    closed spec fn view(&self) -> Seq<char> {
        text12(self.0)
    }
}

impl LanguageId {
    /// The language of the given name, which fits in twelve bytes.
    pub fn new(s: &str) -> (r: Self)
        requires
            encode_utf8(s@).len() <= 12,
        ensures
            r@ == s@,
    {
        match text12_from(s) {
            Ok(a) => LanguageId(a),
            Err(_) => vstd::pervasive::unreached(),
        }
    }

    /// The name as text.
    pub fn as_str(&self) -> (r: &str)
        ensures
            r@ == self@,
            encode_utf8(self@).len() <= 12,
    {
        text12_as_str(&self.0)
    }

    /// Writes the name.
    pub fn to_string(&self) -> (r: String)
        ensures
            r@ == self@,
    {
        String::from_str(text12_as_str(&self.0))
    }

    /// Reads the name of a language: any text that fits in twelve bytes.
    pub fn from_str(s: &str) -> (r: Result<Self, InvalidLanguageId>)
        ensures
            r is Ok <==> encode_utf8(s@).len() <= 12,
            r matches Ok(id) ==> id@ == s@,
    {
        match text12_from(s) {
            Ok(a) => Ok(LanguageId(a)),
            Err(_) => Err(InvalidLanguageId),
        }
    }

    /// Tells whether two ids name the same language.
    pub fn same(&self, other: &Self) -> (r: bool)
        ensures
            r == (self@ == other@),
    {
        text12_eq(&self.0, &other.0)
    }
}

impl Default for LanguageId {
    fn default() -> (r: Self)
        ensures
            r@ == "en"@,
    {
        proof {
            reveal_strlit("en");
            assert(is_ascii_chars("en"@));
            is_ascii_chars_encode_utf8("en"@);
        }
        LanguageId::new("en")
    }
}

} // verus!
