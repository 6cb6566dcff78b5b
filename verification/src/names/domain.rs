use crate::bounded::{text28, text28_as_str, text28_eq, text28_from};
use crate::text::{first_index, split_around, split_once, to_chars};
use arrayvec::ArrayString;
use vstd::prelude::*;
use vstd::string::StringExecFns;
use vstd::utf8::encode_utf8;

verus! {

/// The name of a domain.
#[derive(Clone, Copy, Debug, PartialEq, Eq, Hash, PartialOrd, Ord)]
pub struct DomainName(ArrayString<28>);

/// Why a text is no domain name.
#[derive(Clone, Copy, Debug, PartialEq, Eq, Structural)]
pub enum InvalidDomainName {
    /// There is no dot, or nothing before or behind the first dot.
    MissingPart,
    /// The text holds the given character, which is neither an ASCII letter or
    /// digit nor a dot.
    InvalidCharacter(char),
    /// The name takes more than 28 bytes.
    TooLong,
}

impl View for DomainName {
    type V = Seq<char>;

    closed spec fn view(&self) -> Seq<char> {
        text28(self.0)
    }
}

/// Whether a character may stand in a domain name.
pub open spec fn is_domain_char(c: char) -> bool {
    ('0' <= c <= '9') || ('a' <= c <= 'z') || ('A' <= c <= 'Z') || c == '.'
}

/// The first place of `s` that holds a character that may not stand in a
/// domain name; the length of `s` where there is none.
pub open spec fn first_foreign(s: Seq<char>) -> int
    decreases s.len(),
{
    if s.len() == 0 {
        0
    } else if !is_domain_char(s[0]) {
        0
    } else {
        1 + first_foreign(s.drop_first())
    }
}

impl DomainName {
    /// The domain name `s`, where it fits in 28 bytes; nothing else is asked of it.
    pub fn new(s: &str) -> (r: Option<Self>)
        ensures
            r is Some <==> encode_utf8(s@).len() <= 28,
            r matches Some(name) ==> name@ == s@,
    {
        match text28_from(s) {
            Ok(a) => Some(DomainName(a)),
            Err(_) => None,
        }
    }

    /// What a text denotes: a domain name, or the reason why none.
    pub open spec fn parse(s: Seq<char>) -> Result<Seq<char>, InvalidDomainName> {
        if first_foreign(s) < s.len() {
            Err(InvalidDomainName::InvalidCharacter(s[first_foreign(s)]))
        } else {
            match first_index(s, '.') {
                None => Err(InvalidDomainName::MissingPart),
                Some(i) => if split_around(s, i).0.len() == 0 || split_around(s, i).1.len() == 0 {
                    Err(InvalidDomainName::MissingPart)
                } else if encode_utf8(s).len() > 28 {
                    Err(InvalidDomainName::TooLong)
                } else {
                    Ok(s)
                },
            }
        }
    }

    /// Reads a domain name.
    pub fn from_str(s: &str) -> (r: Result<Self, InvalidDomainName>)
        ensures
            match r {
                Ok(name) => Self::parse(s@) == Ok::<Seq<char>, InvalidDomainName>(name@),
                Err(e) => Self::parse(s@) == Err::<Seq<char>, InvalidDomainName>(e),
            },
    {
        let chars = to_chars(s);
        let mut i: usize = 0;
        assert(s@.skip(0) == s@);
        while i < chars.len()
            invariant
                i <= chars.len(),
                chars@ == s@,
                first_foreign(s@) == i + first_foreign(s@.skip(i as int)),
            decreases chars.len() - i,
        {
            let c = chars[i];
            assert(s@.skip(i as int)[0] == c);
            assert(s@.skip(i as int).drop_first() == s@.skip(i + 1));
            if !(('0' <= c && c <= '9') || ('a' <= c && c <= 'z') || ('A' <= c && c <= 'Z') || c
                == '.') {
                return Err(InvalidDomainName::InvalidCharacter(c));
            }
            i += 1;
        }
        assert(s@.skip(0) == s@);
        assert(s@.skip(i as int).len() == 0);
        let (before, after) = match split_once(s, '.') {
            Some(pair) => pair,
            None => {
                return Err(InvalidDomainName::MissingPart);
            },
        };
        if before.unicode_len() == 0 || after.unicode_len() == 0 {
            return Err(InvalidDomainName::MissingPart);
        }
        match text28_from(s) {
            Ok(a) => Ok(DomainName(a)),
            Err(_) => Err(InvalidDomainName::TooLong),
        }
    }

    /// The name as text.
    pub fn as_str(&self) -> (r: &str)
        ensures
            r@ == self@,
    {
        text28_as_str(&self.0)
    }

    /// Writes the name.
    pub fn to_string(&self) -> (r: String)
        ensures
            r@ == self@,
    {
        String::from_str(text28_as_str(&self.0))
    }

    /// Tells whether two names are the same.
    pub fn same(&self, other: &Self) -> (r: bool)
        ensures
            r == (self@ == other@),
    {
        text28_eq(&self.0, &other.0)
    }
}

} // verus!
