use crate::decimal::{
    decimal, format_decimal, lemma_parse_decimal, parse_decimal, parse_nonzero, NumberError,
};
use crate::text::to_chars;
use vstd::prelude::*;

verus! {

/// A point in time as a non-zero count of milliseconds since the Unix epoch.
#[derive(Clone, Copy, Debug, PartialEq, Eq, Structural, Hash, PartialOrd, Ord)]
pub struct NonZeroUnixMillis {
    n: u64,
}

impl View for NonZeroUnixMillis {
    type V = int;

    closed spec fn view(&self) -> int {
        self.n as int
    }
}

impl NonZeroUnixMillis {
    #[verifier::type_invariant]
    spec fn nonzero(self) -> bool {
        self.n != 0
    }

    /// Whether a ghost value is one that `new` can return.
    pub open spec fn valid(self) -> bool {
        1 <= self@ <= u64::MAX
    }

    /// The value that holds `n`.
    pub closed spec fn of(n: int) -> Self {
        NonZeroUnixMillis { n: n as u64 }
    }

    /// `of` and the view undo each other.
    pub broadcast proof fn lemma_of_view(n: int)
        requires
            0 <= n <= u64::MAX,
        ensures
            (#[trigger] Self::of(n))@ == n,
    {
    }

    /// A value is the one that holds its number.
    pub broadcast proof fn lemma_view_of(self)
        ensures
            Self::of(#[trigger] self@) == self,
            0 <= self@ <= u64::MAX,
    {
    }

    /// The time of `n` milliseconds, unless `n` is zero.
    pub fn new(n: u64) -> (r: Option<Self>)
        ensures
            r is Some <==> n != 0,
            r matches Some(x) ==> x@ == n && x.valid(),
    {
        if n == 0 {
            None
        } else {
            Some(NonZeroUnixMillis { n })
        }
    }

    /// The earliest time there is.
    pub fn min_value() -> (r: Self)
        ensures
            r@ == 1,
            r.valid(),
    {
        NonZeroUnixMillis { n: 1 }
    }

    /// The latest time there is.
    pub fn max_value() -> (r: Self)
        ensures
            r@ == u64::MAX,
            r.valid(),
    {
        NonZeroUnixMillis { n: u64::MAX }
    }

    /// The number held.
    pub fn get(self) -> (r: u64)
        ensures
            r == self@,
            r != 0,
            self.valid(),
    {
        proof {
            use_type_invariant(self);
        }
        self.n
    }

    /// The decimal text of the number.
    pub open spec fn text(self) -> Seq<char> {
        decimal(self@ as nat)
    }

    /// What a text denotes: a value of this type, or the reason why none.
    pub open spec fn parse(s: Seq<char>) -> Result<Self, NumberError> {
        match parse_nonzero(s, u64::MAX as nat) {
            Ok(n) => Ok(Self::of(n as int)),
            Err(e) => Err(e),
        }
    }

    /// Writes the number in decimal.
    pub fn to_string(&self) -> (r: String)
        ensures
            r@ == self.text(),
    {
        format_decimal(self.get() as u64)
    }

    /// Reads a decimal number that is not zero and fits the type.
    pub fn from_str(s: &str) -> (r: Result<Self, NumberError>)
        ensures
            r == Self::parse(s@),
            r matches Ok(x) ==> x.valid(),
    {
        let chars = to_chars(s);
        assert(chars@.subrange(0, chars@.len() as int) == s@);
        match parse_decimal(&chars, 0, chars.len(), u64::MAX as u64) {
            Ok(n) => {
                if n == 0 {
                    Err(NumberError::Zero)
                } else {
                    Ok(NonZeroUnixMillis { n: n as u64 })
                }
            },
            Err(e) => Err(e),
        }
    }

    /// The text of a number reads back as that number.
    pub proof fn lemma_parse_text(self)
        requires
            self.valid(),
        ensures
            Self::parse(self.text()) == Ok::<Self, NumberError>(self),
    {
        lemma_parse_decimal(self@ as nat, u64::MAX as nat);
    }
}

} // verus!
