use crate::bounded::{text12, text12_as_str, text12_eq, text12_from};
use crate::names::fmt_utils::{floor_boundary, slice_up_to_bytes};
use crate::text::same_text;
use arrayvec::ArrayString;
use vstd::prelude::*;
use vstd::string::StringExecFns;
use vstd::utf8::encode_utf8;

verus! {

/// The name of a realm.
#[derive(Clone, Copy, Debug, PartialEq, Eq, Hash, PartialOrd, Ord)]
pub struct RealmName(pub ArrayString<12>);

/// Why a text is no realm name.
#[derive(Clone, Copy, Debug, PartialEq, Eq, Structural)]
pub enum InvalidRealmName {
    /// The name is the reserved `www`.
    Www,
    /// The name takes more than twelve bytes.
    TooLong,
}

impl View for RealmName {
    type V = Seq<char>;

    open spec fn view(&self) -> Seq<char> {
        text12(self.0)
    }
}

impl RealmName {
    /// The realm name made of the start of `s` that fits in twelve bytes.
    pub fn new(s: &str) -> (r: Self)
        ensures
            encode_utf8(r@) == encode_utf8(s@).take(floor_boundary(encode_utf8(s@), 12)),
            r@ == s@.take(r@.len() as int),
    {
        let head = slice_up_to_bytes(s, 12);
        match text12_from(head) {
            Ok(a) => RealmName(a),
            Err(_) => vstd::pervasive::unreached(),
        }
    }

    /// What a text denotes: the realm of that name, or the reason why none.
    pub open spec fn parse(s: Seq<char>) -> Result<Seq<char>, InvalidRealmName> {
        if s == "www"@ {
            Err(InvalidRealmName::Www)
        } else if encode_utf8(s).len() > 12 {
            Err(InvalidRealmName::TooLong)
        } else {
            Ok(s)
        }
    }

    /// Reads the name of a realm.
    pub fn from_str(s: &str) -> (r: Result<Self, InvalidRealmName>)
        ensures
            match r {
                Ok(name) => Self::parse(s@) == Ok::<Seq<char>, InvalidRealmName>(name@),
                Err(e) => Self::parse(s@) == Err::<Seq<char>, InvalidRealmName>(e),
            },
    {
        if same_text(s, "www") {
            Err(InvalidRealmName::Www)
        } else {
            match text12_from(s) {
                Ok(a) => Ok(RealmName(a)),
                Err(_) => Err(InvalidRealmName::TooLong),
            }
        }
    }

    /// The name as text.
    pub fn as_str(&self) -> (r: &str)
        ensures
            r@ == self@,
            encode_utf8(self@).len() <= 12,
    {
        text12_as_str(&self.0)
    }

    /// Writes the name.
    pub fn to_string(&self) -> (r: String)
        ensures
            r@ == self@,
    {
        String::from_str(text12_as_str(&self.0))
    }

    /// Tells whether two names are the same.
    pub fn same(&self, other: &Self) -> (r: bool)
        ensures
            r == (self@ == other@),
    {
        text12_eq(&self.0, &other.0)
    }
}

} // verus!
