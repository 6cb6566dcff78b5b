use crate::decimal::{
    decimal, format_decimal, lemma_parse_decimal, parse_decimal, parse_nonzero, NumberError,
};
use crate::text::to_chars;
use vstd::prelude::*;

verus! {

/// A `u8` that is not zero.
#[derive(Clone, Copy, Debug, PartialEq, Eq, Structural, Hash, PartialOrd, Ord)]
pub struct NonZero8 {
    n: u8,
}

impl View for NonZero8 {
    type V = int;

    closed spec fn view(&self) -> int {
        self.n as int
    }
}

impl NonZero8 {
    #[verifier::type_invariant]
    spec fn nonzero(self) -> bool {
        self.n != 0
    }

    /// Whether a ghost value is one that `new` can return.
    pub open spec fn valid(self) -> bool {
        1 <= self@ <= u8::MAX
    }

    /// The value that holds `n`.
    pub closed spec fn of(n: int) -> Self {
        NonZero8 { n: n as u8 }
    }

    /// `of` and the view undo each other.
    pub broadcast proof fn lemma_of_view(n: int)
        requires
            0 <= n <= u8::MAX,
        ensures
            (#[trigger] Self::of(n))@ == n,
    {
    }

    /// A value is the one that holds its number.
    pub broadcast proof fn lemma_view_of(self)
        ensures
            Self::of(#[trigger] self@) == self,
            0 <= self@ <= u8::MAX,
    {
    }

    /// The number `n`, unless it is zero.
    pub fn new(n: u8) -> (r: Option<Self>)
        ensures
            r is Some <==> n != 0,
            r matches Some(x) ==> x@ == n && x.valid(),
    {
        if n == 0 {
            None
        } else {
            Some(NonZero8 { n })
        }
    }

    /// The number held.
    pub fn get(self) -> (r: u8)
        ensures
            r == self@,
            r != 0,
            self.valid(),
    {
        proof {
            use_type_invariant(self);
        }
        self.n
    }

    /// The decimal text of the number.
    pub open spec fn text(self) -> Seq<char> {
        decimal(self@ as nat)
    }

    /// What a text denotes: a value of this type, or the reason why none.
    pub open spec fn parse(s: Seq<char>) -> Result<Self, NumberError> {
        match parse_nonzero(s, u8::MAX as nat) {
            Ok(n) => Ok(Self::of(n as int)),
            Err(e) => Err(e),
        }
    }

    /// Writes the number in decimal.
    pub fn to_string(&self) -> (r: String)
        ensures
            r@ == self.text(),
    {
        format_decimal(self.get() as u64)
    }

    /// Reads a decimal number that is not zero and fits the type.
    pub fn from_str(s: &str) -> (r: Result<Self, NumberError>)
        ensures
            r == Self::parse(s@),
            r matches Ok(x) ==> x.valid(),
    {
        let chars = to_chars(s);
        assert(chars@.subrange(0, chars@.len() as int) == s@);
        match parse_decimal(&chars, 0, chars.len(), u8::MAX as u64) {
            Ok(n) => {
                if n == 0 {
                    Err(NumberError::Zero)
                } else {
                    Ok(NonZero8 { n: n as u8 })
                }
            },
            Err(e) => Err(e),
        }
    }

    /// The text of a number reads back as that number.
    pub proof fn lemma_parse_text(self)
        requires
            self.valid(),
        ensures
            Self::parse(self.text()) == Ok::<Self, NumberError>(self),
    {
        lemma_parse_decimal(self@ as nat, u8::MAX as nat);
    }
}

/// A `u16` that is not zero.
#[derive(Clone, Copy, Debug, PartialEq, Eq, Structural, Hash, PartialOrd, Ord)]
pub struct NonZero16 {
    n: u16,
}

impl View for NonZero16 {
    type V = int;

    closed spec fn view(&self) -> int {
        self.n as int
    }
}

impl NonZero16 {
    #[verifier::type_invariant]
    spec fn nonzero(self) -> bool {
        self.n != 0
    }

    /// Whether a ghost value is one that `new` can return.
    pub open spec fn valid(self) -> bool {
        1 <= self@ <= u16::MAX
    }

    /// The value that holds `n`.
    pub closed spec fn of(n: int) -> Self {
        NonZero16 { n: n as u16 }
    }

    /// `of` and the view undo each other.
    pub broadcast proof fn lemma_of_view(n: int)
        requires
            0 <= n <= u16::MAX,
        ensures
            (#[trigger] Self::of(n))@ == n,
    {
    }

    /// A value is the one that holds its number.
    pub broadcast proof fn lemma_view_of(self)
        ensures
            Self::of(#[trigger] self@) == self,
            0 <= self@ <= u16::MAX,
    {
    }

    /// The number `n`, unless it is zero.
    pub fn new(n: u16) -> (r: Option<Self>)
        ensures
            r is Some <==> n != 0,
            r matches Some(x) ==> x@ == n && x.valid(),
    {
        if n == 0 {
            None
        } else {
            Some(NonZero16 { n })
        }
    }

    /// The number held.
    pub fn get(self) -> (r: u16)
        ensures
            r == self@,
            r != 0,
            self.valid(),
    {
        proof {
            use_type_invariant(self);
        }
        self.n
    }

    /// The decimal text of the number.
    pub open spec fn text(self) -> Seq<char> {
        decimal(self@ as nat)
    }

    /// What a text denotes: a value of this type, or the reason why none.
    pub open spec fn parse(s: Seq<char>) -> Result<Self, NumberError> {
        match parse_nonzero(s, u16::MAX as nat) {
            Ok(n) => Ok(Self::of(n as int)),
            Err(e) => Err(e),
        }
    }

    /// Writes the number in decimal.
    pub fn to_string(&self) -> (r: String)
        ensures
            r@ == self.text(),
    {
        format_decimal(self.get() as u64)
    }

    /// Reads a decimal number that is not zero and fits the type.
    pub fn from_str(s: &str) -> (r: Result<Self, NumberError>)
        ensures
            r == Self::parse(s@),
            r matches Ok(x) ==> x.valid(),
    {
        let chars = to_chars(s);
        assert(chars@.subrange(0, chars@.len() as int) == s@);
        match parse_decimal(&chars, 0, chars.len(), u16::MAX as u64) {
            Ok(n) => {
                if n == 0 {
                    Err(NumberError::Zero)
                } else {
                    Ok(NonZero16 { n: n as u16 })
                }
            },
            Err(e) => Err(e),
        }
    }

    /// The text of a number reads back as that number.
    pub proof fn lemma_parse_text(self)
        requires
            self.valid(),
        ensures
            Self::parse(self.text()) == Ok::<Self, NumberError>(self),
    {
        lemma_parse_decimal(self@ as nat, u16::MAX as nat);
    }
}

/// A `u32` that is not zero.
#[derive(Clone, Copy, Debug, PartialEq, Eq, Structural, Hash, PartialOrd, Ord)]
pub struct NonZero32 {
    n: u32,
}

impl View for NonZero32 {
    type V = int;

    closed spec fn view(&self) -> int {
        self.n as int
    }
}

impl NonZero32 {
    #[verifier::type_invariant]
    spec fn nonzero(self) -> bool {
        self.n != 0
    }

    /// Whether a ghost value is one that `new` can return.
    pub open spec fn valid(self) -> bool {
        1 <= self@ <= u32::MAX
    }

    /// The value that holds `n`.
    pub closed spec fn of(n: int) -> Self {
        NonZero32 { n: n as u32 }
    }

    /// `of` and the view undo each other.
    pub broadcast proof fn lemma_of_view(n: int)
        requires
            0 <= n <= u32::MAX,
        ensures
            (#[trigger] Self::of(n))@ == n,
    {
    }

    /// A value is the one that holds its number.
    pub broadcast proof fn lemma_view_of(self)
        ensures
            Self::of(#[trigger] self@) == self,
            0 <= self@ <= u32::MAX,
    {
    }

    /// The number `n`, unless it is zero.
    pub fn new(n: u32) -> (r: Option<Self>)
        ensures
            r is Some <==> n != 0,
            r matches Some(x) ==> x@ == n && x.valid(),
    {
        if n == 0 {
            None
        } else {
            Some(NonZero32 { n })
        }
    }

    /// The number held.
    pub fn get(self) -> (r: u32)
        ensures
            r == self@,
            r != 0,
            self.valid(),
    {
        proof {
            use_type_invariant(self);
        }
        self.n
    }

    /// The decimal text of the number.
    pub open spec fn text(self) -> Seq<char> {
        decimal(self@ as nat)
    }

    /// What a text denotes: a value of this type, or the reason why none.
    pub open spec fn parse(s: Seq<char>) -> Result<Self, NumberError> {
        match parse_nonzero(s, u32::MAX as nat) {
            Ok(n) => Ok(Self::of(n as int)),
            Err(e) => Err(e),
        }
    }

    /// Writes the number in decimal.
    pub fn to_string(&self) -> (r: String)
        ensures
            r@ == self.text(),
    {
        format_decimal(self.get() as u64)
    }

    /// Reads a decimal number that is not zero and fits the type.
    pub fn from_str(s: &str) -> (r: Result<Self, NumberError>)
        ensures
            r == Self::parse(s@),
            r matches Ok(x) ==> x.valid(),
    {
        let chars = to_chars(s);
        assert(chars@.subrange(0, chars@.len() as int) == s@);
        match parse_decimal(&chars, 0, chars.len(), u32::MAX as u64) {
            Ok(n) => {
                if n == 0 {
                    Err(NumberError::Zero)
                } else {
                    Ok(NonZero32 { n: n as u32 })
                }
            },
            Err(e) => Err(e),
        }
    }

    /// The text of a number reads back as that number.
    pub proof fn lemma_parse_text(self)
        requires
            self.valid(),
        ensures
            Self::parse(self.text()) == Ok::<Self, NumberError>(self),
    {
        lemma_parse_decimal(self@ as nat, u32::MAX as nat);
    }
}

/// A `u64` that is not zero.
#[derive(Clone, Copy, Debug, PartialEq, Eq, Structural, Hash, PartialOrd, Ord)]
pub struct NonZero64 {
    n: u64,
}

impl View for NonZero64 {
    type V = int;

    closed spec fn view(&self) -> int {
        self.n as int
    }
}

impl NonZero64 {
    #[verifier::type_invariant]
    spec fn nonzero(self) -> bool {
        self.n != 0
    }

    /// Whether a ghost value is one that `new` can return.
    pub open spec fn valid(self) -> bool {
        1 <= self@ <= u64::MAX
    }

    /// The value that holds `n`.
    pub closed spec fn of(n: int) -> Self {
        NonZero64 { n: n as u64 }
    }

    /// `of` and the view undo each other.
    pub broadcast proof fn lemma_of_view(n: int)
        requires
            0 <= n <= u64::MAX,
        ensures
            (#[trigger] Self::of(n))@ == n,
    {
    }

    /// A value is the one that holds its number.
    pub broadcast proof fn lemma_view_of(self)
        ensures
            Self::of(#[trigger] self@) == self,
            0 <= self@ <= u64::MAX,
    {
    }

    /// The number `n`, unless it is zero.
    pub fn new(n: u64) -> (r: Option<Self>)
        ensures
            r is Some <==> n != 0,
            r matches Some(x) ==> x@ == n && x.valid(),
    {
        if n == 0 {
            None
        } else {
            Some(NonZero64 { n })
        }
    }

    /// The number held.
    pub fn get(self) -> (r: u64)
        ensures
            r == self@,
            r != 0,
            self.valid(),
    {
        proof {
            use_type_invariant(self);
        }
        self.n
    }

    /// The decimal text of the number.
    pub open spec fn text(self) -> Seq<char> {
        decimal(self@ as nat)
    }

    /// What a text denotes: a value of this type, or the reason why none.
    pub open spec fn parse(s: Seq<char>) -> Result<Self, NumberError> {
        match parse_nonzero(s, u64::MAX as nat) {
            Ok(n) => Ok(Self::of(n as int)),
            Err(e) => Err(e),
        }
    }

    /// Writes the number in decimal.
    pub fn to_string(&self) -> (r: String)
        ensures
            r@ == self.text(),
    {
        format_decimal(self.get() as u64)
    }

    /// Reads a decimal number that is not zero and fits the type.
    pub fn from_str(s: &str) -> (r: Result<Self, NumberError>)
        ensures
            r == Self::parse(s@),
            r matches Ok(x) ==> x.valid(),
    {
        let chars = to_chars(s);
        assert(chars@.subrange(0, chars@.len() as int) == s@);
        match parse_decimal(&chars, 0, chars.len(), u64::MAX as u64) {
            Ok(n) => {
                if n == 0 {
                    Err(NumberError::Zero)
                } else {
                    Ok(NonZero64 { n: n as u64 })
                }
            },
            Err(e) => Err(e),
        }
    }

    /// The text of a number reads back as that number.
    pub proof fn lemma_parse_text(self)
        requires
            self.valid(),
        ensures
            Self::parse(self.text()) == Ok::<Self, NumberError>(self),
    {
        lemma_parse_decimal(self@ as nat, u64::MAX as nat);
    }
}

} // verus!
