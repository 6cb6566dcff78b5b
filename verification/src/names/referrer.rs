use crate::bounded::{text16, text16_as_str, text16_from};
use crate::decimal::{parse_decimal, parse_unsigned};
use crate::names::fmt_utils::{byte_prefix, trim_and_slice_up_to, trimmed_whitespace};
use crate::text::{
    find_part, first_index, first_part_at, has_part, last_index, rsplit_once,
    same_text, split_around, split_once, to_chars,
};
use arrayvec::ArrayString;
use vstd::prelude::*;
use vstd::string::{StrSliceExecFns, StringExecFns};

verus! {

/// Where a player came from: a short name taken from a host name.
#[derive(Clone, Copy, Debug, PartialEq, Eq, Hash, PartialOrd, Ord)]
pub struct Referrer(ArrayString<16>);

impl View for Referrer {
    type V = Seq<char>;

    closed spec fn view(&self) -> Seq<char> {
        text16(self.0)
    }
}

/// The text up to its first `c`, or all of it where it holds none.
pub open spec fn up_to(s: Seq<char>, c: char) -> Seq<char> {
    match first_index(s, c) {
        Some(i) => s.take(i),
        None => s,
    }
}

/// The part of the text behind its last `c`, or all of it where it holds none.
pub open spec fn last_part(s: Seq<char>, c: char) -> Seq<char> {
    match last_index(s, c) {
        Some(i) => s.skip(i + 1),
        None => s,
    }
}

/// The text behind the first `://`, or all of it where it holds none.
pub open spec fn behind_scheme(s: Seq<char>) -> Seq<char> {
    if has_part(s, "://"@) {
        s.skip((choose|i: int| first_part_at(s, "://"@, i)) + 3)
    } else {
        s
    }
}

/// The name in a host name that tells whose it is: the part before the last,
/// or, where that is `co` or `com` and another comes before it, that one; the
/// whole where the host name holds no dot.
pub open spec fn owner_of_host(host: Seq<char>) -> Seq<char> {
    match last_index(host, '.') {
        None => host,
        Some(i) => {
            let rest = host.take(i);
            let second = last_part(rest, '.');
            match last_index(rest, '.') {
                Some(j) => if second == "co"@ || second == "com"@ {
                    last_part(rest.take(j), '.')
                } else {
                    second
                },
                None => second,
            }
        },
    }
}

impl Referrer {
    /// What a text is as a referrer: what fits in 16 bytes of it, once the
    /// whitespace at its ends is gone.
    pub open spec fn cut(s: Seq<char>) -> Seq<char> {
        byte_prefix(trimmed_whitespace(s), 16)
    }

    /// The referrer that a text names; every text names one.
    pub fn from_str(s: &str) -> (r: Result<Self, core::convert::Infallible>)
        ensures
            r matches Ok(referrer) && referrer@ == Self::cut(s@),
    {
        match text16_from(trim_and_slice_up_to(s, 16)) {
            Ok(a) => Ok(Referrer(a)),
            Err(_) => vstd::pervasive::unreached(),
        }
    }

    /// The referrer as text.
    pub fn as_str(&self) -> (r: &str)
        ensures
            r@ == self@,
    {
        text16_as_str(&self.0)
    }

    /// Writes the referrer.
    pub fn to_string(&self) -> (r: String)
        ensures
            r@ == self@,
    {
        String::from_str(text16_as_str(&self.0))
    }

    /// What the host name under which the game was reached tells of the referrer:
    /// the text before the first dot, where what follows up to a colon is the
    /// domain of the game or `localhost`, and that text is neither a number nor `www`.
    pub open spec fn referring_part(hostname: Seq<char>, game_domain: Seq<char>) -> Option<
        Seq<char>,
    > {
        let host = up_to(hostname, ':');
        match first_index(host, '.') {
            None => None,
            Some(i) => {
                let (name, domain) = split_around(host, i);
                if (domain == game_domain || domain == "localhost"@) && parse_unsigned(
                    name,
                    usize::MAX as nat,
                ) is Err && name != "www"@ {
                    Some(name)
                } else {
                    None
                }
            },
        }
    }

    /// The name in the host name under which the game was reached that tells of
    /// the referrer, as `referring_part` says.
    pub fn referring_name<'a>(hostname: &'a str, game_domain: &str) -> (r: Option<&'a str>)
        ensures
            match r {
                Some(name) => Self::referring_part(hostname@, game_domain@) == Some(name@),
                None => Self::referring_part(hostname@, game_domain@) is None,
            },
    {
        let host = match split_once(hostname, ':') {
            Some((host, _)) => host,
            None => hostname,
        };
        let (name, domain) = match split_once(host, '.') {
            Some(pair) => pair,
            None => {
                return None;
            },
        };
        if !(same_text(domain, game_domain) || same_text(domain, "localhost")) {
            return None;
        }
        let chars = to_chars(name);
        assert(chars@.subrange(0, chars@.len() as int) == name@);
        if parse_decimal(&chars, 0, chars.len(), usize::MAX as u64).is_ok() {
            return None;
        }
        if same_text(name, "www") {
            return None;
        }
        Some(name)
    }

    /// The referrer that the host name under which the game was reached tells of.
    pub fn from_hostname(hostname: &str, game_domain: &str) -> (r: Option<Referrer>)
        ensures
            match Self::referring_part(hostname@, game_domain@) {
                Some(name) => r matches Some(referrer) && referrer@ == Self::cut(name),
                None => r is None,
            },
    {
        match Self::referring_name(hostname, game_domain) {
            Some(name) => match Self::from_str(name) {
                Ok(referrer) => Some(referrer),
                Err(_) => None,
            },
            None => None,
        }
    }

    /// The part of an address that names the host: behind the scheme, up to the
    /// first slash.
    pub open spec fn host_of(s: Seq<char>) -> Seq<char> {
        up_to(behind_scheme(s), '/')
    }

    /// The referrer that an address tells of, as `owner_of_host` says; none where
    /// that name is empty. Of the name, what fits in 16 bytes is kept.
    pub fn new(s: &str) -> (r: Option<Self>)
        ensures
            match r {
                Some(referrer) => owner_of_host(Self::host_of(s@)).len() > 0 && referrer@
                    == byte_prefix(owner_of_host(Self::host_of(s@)), 16),
                None => owner_of_host(Self::host_of(s@)).len() == 0,
            },
    {
        let chars = to_chars(s);
        let scheme = to_chars("://");
        proof {
            reveal_strlit("://");
        }
        assert(scheme@.len() == 3);
        let after: &str = match find_part(&chars, &scheme) {
            Some(i) => {
                proof {
                    assert(has_part(s@, "://"@));
                    let k = choose|k: int| first_part_at(s@, "://"@, k);
                    if k < i {
                        assert(s@.subrange(k, k + 3) != "://"@);
                    } else if i < k {
                        assert(s@.subrange(i as int, i + 3) != "://"@);
                    }
                }
                assert(i + 3 <= chars.len());
                let after = s.substring_char(i + 3, chars.len());
                assert(s@.subrange(i + 3, s@.len() as int) == s@.skip(i + 3));
                after
            },
            None => s,
        };
        let host = match split_once(after, '/') {
            Some((host, _)) => host,
            None => after,
        };
        assert(host@ == Self::host_of(s@));
        let owner: &str = match rsplit_once(host, '.') {
            None => host,
            Some((rest, _)) => match rsplit_once(rest, '.') {
                None => rest,
                Some((before, second)) => {
                    if same_text(second, "co") || same_text(second, "com") {
                        match rsplit_once(before, '.') {
                            Some((_, third)) => third,
                            None => before,
                        }
                    } else {
                        second
                    }
                },
            },
        };
        assert(owner@ == owner_of_host(host@));
        if owner.unicode_len() == 0 {
            return None;
        }
        match text16_from(crate::names::fmt_utils::slice_up_to_bytes(owner, 16)) {
            Ok(a) => Some(Referrer(a)),
            Err(_) => vstd::pervasive::unreached(),
        }
    }
}

} // verus!
