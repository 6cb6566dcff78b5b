use crate::decimal::{
    decimal, format_decimal, is_digit, lemma_decimal_digits, lemma_parse_decimal, parse_decimal,
    parse_unsigned, NumberError,
};
use crate::nonzero::NonZero8;
use crate::text::to_chars;
use vstd::prelude::*;
use vstd::string::StrSliceExecFns;


verus! {

/// Which of the arenas of a tier.
#[derive(Clone, Copy, Debug, PartialEq, Eq, Structural, Hash, PartialOrd, Ord)]
pub struct InstanceNumber(pub u8);

impl Default for InstanceNumber {
    fn default() -> (r: Self)
        ensures
            r == InstanceNumber(0),
    {
        InstanceNumber(0)
    }
}

impl InstanceNumber {
    pub fn new(n: u8) -> (r: Self)
        ensures
            r == InstanceNumber(n),
    {
        InstanceNumber(n)
    }

    /// The decimal text of the number.
    pub open spec fn text(self) -> Seq<char> {
        decimal(self.0 as nat)
    }

    /// What a text denotes: an instance number, or the reason why none.
    pub open spec fn parse(s: Seq<char>) -> Result<InstanceNumber, NumberError> {
        match parse_unsigned(s, u8::MAX as nat) {
            Ok(n) => Ok(InstanceNumber(n as u8)),
            Err(e) => Err(e),
        }
    }

    /// Writes the number in decimal.
    pub fn to_string(&self) -> (r: String)
        ensures
            r@ == self.text(),
    {
        format_decimal(self.0 as u64)
    }

    /// Reads an instance number.
    pub fn from_str(s: &str) -> (r: Result<Self, NumberError>)
        ensures
            r == Self::parse(s@),
    {
        let chars = to_chars(s);
        assert(chars@.subrange(0, chars@.len() as int) == s@);
        match parse_decimal(&chars, 0, chars.len(), 255) {
            Ok(n) => Ok(InstanceNumber(n as u8)),
            Err(e) => Err(e),
        }
    }

    /// The text of a number reads back as that number.
    pub proof fn lemma_parse_text(self)
        ensures
            Self::parse(self.text()) == Ok::<Self, NumberError>(self),
    {
        lemma_parse_decimal(self.0 as nat, u8::MAX as nat);
    }
}

/// A tier of arenas: tier 1 is written `A`, tier 2 `B`, and so on.
#[derive(Clone, Copy, Debug, PartialEq, Eq, Structural, Hash, PartialOrd, Ord)]
pub struct TierNumber(pub NonZero8);

/// A text is no single capital letter.
#[derive(Clone, Copy, Debug, PartialEq, Eq, Structural)]
pub struct InvalidTierNumber;

pub open spec fn is_capital(c: char) -> bool {
    'A' <= c <= 'Z'
}

impl TierNumber {
    /// The tier `n`, unless `n` is zero.
    pub fn new(n: u8) -> (r: Option<Self>)
        ensures
            r is Some <==> n != 0,
            r matches Some(t) ==> t.0@ == n && t.0.valid(),
    {
        match NonZero8::new(n) {
            Some(n) => Some(TierNumber(n)),
            None => None,
        }
    }

    /// The letter of the tier: `A` for 1 up to `Z` for 26, and `Z` for every
    /// tier above.
    pub open spec fn letter(self) -> char {
        if self.0@ < 26 {
            ('A' as int - 1 + self.0@) as char
        } else {
            'Z'
        }
    }

    /// The text of a tier: its letter.
    pub open spec fn text(self) -> Seq<char> {
        seq![self.letter()]
    }

    /// What a text denotes: the tier of a single capital letter.
    pub open spec fn parse(s: Seq<char>) -> Result<TierNumber, InvalidTierNumber> {
        if s.len() == 1 && is_capital(s[0]) {
            Ok(TierNumber(NonZero8::of(1 + s[0] as int - 'A' as int)))
        } else {
            Err(InvalidTierNumber)
        }
    }

    /// The letter of the tier.
    pub fn to_char(&self) -> (r: char)
        ensures
            r == self.letter(),
    {
        let n = self.0.get();
        if n < 26 {
            (64u8 + n) as char
        } else {
            'Z'
        }
    }

    /// Writes the letter of the tier.
    pub fn to_string(&self) -> (r: String)
        ensures
            r@ == self.text(),
    {
        let mut r = String::new();
        r.push(self.to_char());
        r
    }

    /// The tier of a capital letter.
    pub fn from_char(c: char) -> (r: Option<Self>)
        ensures
            r == if is_capital(c) {
                Some(TierNumber(NonZero8::of(1 + c as int - 'A' as int)))
            } else {
                None
            },
            r matches Some(t) ==> t.0.valid(),
    {
        broadcast use NonZero8::lemma_view_of;

        if 'A' <= c && c <= 'Z' {
            let n: u8 = (c as u32 - 64) as u8;
            match NonZero8::new(n) {
                Some(n) => {
                    assert(NonZero8::of(n@) == n);
                    Some(TierNumber(n))
                },
                None => None,
            }
        } else {
            None
        }
    }

    /// Reads a tier from its letter.
    pub fn from_str(s: &str) -> (r: Result<Self, InvalidTierNumber>)
        ensures
            r == Self::parse(s@),
            r matches Ok(t) ==> t.0.valid(),
    {
        let chars = to_chars(s);
        if chars.len() != 1 {
            return Err(InvalidTierNumber);
        }
        match Self::from_char(chars[0]) {
            Some(t) => Ok(t),
            None => Err(InvalidTierNumber),
        }
    }

    /// The letter of a tier up to 26 reads back as that tier.
    pub proof fn lemma_parse_text(self)
        requires
            self.0.valid(),
            self.0@ <= 26,
        ensures
            Self::parse(self.text()) == Ok::<Self, InvalidTierNumber>(self),
            is_capital(self.letter()),
    {
        broadcast use NonZero8::lemma_view_of;

        assert(NonZero8::of(self.0@) == self.0);
    }
}

/// An arena of a realm: its tier, if the realm has tiers, and its number within.
#[derive(Clone, Copy, Debug, PartialEq, Eq, Structural, Hash, PartialOrd, Ord)]
pub struct SceneId {
    pub tier_number: Option<TierNumber>,
    pub instance_number: InstanceNumber,
}

/// Why a text is no scene id.
#[derive(Clone, Copy, Debug, PartialEq, Eq, Structural)]
pub enum InvalidSceneId {
    Empty,
    InvalidInstanceNumber,
}

impl Default for SceneId {
    fn default() -> (r: Self)
        ensures
            r == (SceneId { tier_number: None, instance_number: InstanceNumber(0) }),
    {
        SceneId { tier_number: None, instance_number: InstanceNumber(0) }
    }
}

impl SceneId {
    pub fn new(tier_number: Option<TierNumber>, instance_number: InstanceNumber) -> (r: Self)
        ensures
            r == (SceneId { tier_number, instance_number }),
    {
        SceneId { instance_number, tier_number }
    }

    /// The text of a scene: the letter of its tier, if it has one, and its number.
    pub open spec fn text(self) -> Seq<char> {
        match self.tier_number {
            Some(tier_number) => tier_number.text() + self.instance_number.text(),
            None => self.instance_number.text(),
        }
    }

    /// What a text denotes: a scene, or the reason why none. A capital letter at
    /// the start is the tier; a number that is left out is 0.
    pub open spec fn parse(s: Seq<char>) -> Result<SceneId, InvalidSceneId> {
        if s.len() == 0 {
            Err(InvalidSceneId::Empty)
        } else {
            let (tier_number, rest) = if is_capital(s[0]) {
                (Some(TierNumber(NonZero8::of(1 + s[0] as int - 'A' as int))), s.skip(1))
            } else {
                (None, s)
            };
            if rest.len() == 0 {
                Ok(SceneId { tier_number, instance_number: InstanceNumber(0) })
            } else {
                match InstanceNumber::parse(rest) {
                    Ok(instance_number) => Ok(SceneId { tier_number, instance_number }),
                    Err(_) => Err(InvalidSceneId::InvalidInstanceNumber),
                }
            }
        }
    }

    /// Writes the scene as text.
    pub fn to_string(&self) -> (r: String)
        ensures
            r@ == self.text(),
    {
        let mut r = String::new();
        match self.tier_number {
            Some(tier_number) => {
                r.push(tier_number.to_char());
            },
            None => {},
        }
        crate::decimal::push_decimal(&mut r, self.instance_number.0 as u64);
        assert(Seq::<char>::empty() + self.instance_number.text() == self.instance_number.text());
        r
    }

    /// Reads a scene from text.
    pub fn from_str(s: &str) -> (r: Result<Self, InvalidSceneId>)
        ensures
            r == Self::parse(s@),
    {
        let chars = to_chars(s);
        if chars.len() == 0 {
            return Err(InvalidSceneId::Empty);
        }
        let tier_number = TierNumber::from_char(chars[0]);
        let start: usize = if tier_number.is_some() {
            1
        } else {
            0
        };
        assert(chars@.subrange(start as int, chars@.len() as int) == if start == 1 {
            s@.skip(1)
        } else {
            s@
        });
        if start == chars.len() {
            return Ok(SceneId { tier_number, instance_number: InstanceNumber(0) });
        }
        match parse_decimal(&chars, start, chars.len(), 255) {
            Ok(n) => Ok(SceneId { tier_number, instance_number: InstanceNumber(n as u8) }),
            Err(_) => Err(InvalidSceneId::InvalidInstanceNumber),
        }
    }

    /// The text of a scene whose tier, if any, is 26 at most reads back as that
    /// scene; it is not empty and holds neither slash nor question mark.
    pub proof fn lemma_parse_text(self)
        requires
            self.tier_number matches Some(t) ==> t.0.valid() && t.0@ <= 26,
        ensures
            Self::parse(self.text()) == Ok::<Self, InvalidSceneId>(self),
            self.text().len() > 0,
            !self.text().contains('/'),
            self.text().last() != '?',
    {
        let number = self.instance_number.text();
        lemma_decimal_digits(self.instance_number.0 as nat);
        self.instance_number.lemma_parse_text();
        assert(is_digit(number[0]));
        assert(is_digit(number.last()));
        let s = self.text();
        match self.tier_number {
            Some(t) => {
                t.lemma_parse_text();
                assert(s[0] == t.letter());
                assert(s.skip(1) == number);
                assert(s.last() == number.last());
            },
            None => {},
        }
        if s.contains('/') {
            let j = choose|j: int| 0 <= j < s.len() && s[j] == '/';
            if self.tier_number is Some && j > 0 {
                assert(s[j] == number[j - 1]);
                assert(is_digit(number[j - 1]));
            } else if self.tier_number is None {
                assert(is_digit(number[j]));
            }
        }
    }
}

} // verus!
