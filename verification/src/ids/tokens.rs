use crate::decimal::NumberError;
use crate::nonzero::{NonZero32, NonZero64, NonZero8};
use vstd::prelude::*;

verus! {

/// One of the cohorts that players are put in for comparisons: 1 to 4.
#[derive(Clone, Copy, Debug, PartialEq, Eq, Structural, Hash, PartialOrd, Ord)]
pub struct CohortId(pub NonZero8);

impl CohortId {
    /// The decimal text of the number.
    pub open spec fn text(self) -> Seq<char> {
        self.0.text()
    }

    /// What a text denotes: a value of this type, or the reason why none.
    pub open spec fn parse(s: Seq<char>) -> Result<CohortId, NumberError> {
        match NonZero8::parse(s) {
            Ok(n) => Ok(CohortId(n)),
            Err(e) => Err(e),
        }
    }

    /// Writes the number in decimal.
    pub fn to_string(&self) -> (r: String)
        ensures
            r@ == self.text(),
    {
        self.0.to_string()
    }

    /// Reads the number from its decimal text.
    pub fn from_str(s: &str) -> (r: Result<Self, NumberError>)
        ensures
            r == Self::parse(s@),
            r matches Ok(x) ==> x.0.valid(),
    {
        match NonZero8::from_str(s) {
            Ok(n) => Ok(CohortId(n)),
            Err(e) => Err(e),
        }
    }

    /// The text of a value reads back as that value.
    pub proof fn lemma_parse_text(self)
        requires
            self.0.valid(),
        ensures
            Self::parse(self.text()) == Ok::<Self, NumberError>(self),
    {
        self.0.lemma_parse_text();
    }
}

/// What a player shows to take a dropped connection up again.
#[derive(Clone, Copy, Debug, PartialEq, Eq, Structural, Hash, PartialOrd, Ord)]
pub struct ReconnectionToken(pub NonZero32);

impl ReconnectionToken {
    /// The decimal text of the number.
    pub open spec fn text(self) -> Seq<char> {
        self.0.text()
    }

    /// What a text denotes: a value of this type, or the reason why none.
    pub open spec fn parse(s: Seq<char>) -> Result<ReconnectionToken, NumberError> {
        match NonZero32::parse(s) {
            Ok(n) => Ok(ReconnectionToken(n)),
            Err(e) => Err(e),
        }
    }

    /// Writes the number in decimal.
    pub fn to_string(&self) -> (r: String)
        ensures
            r@ == self.text(),
    {
        self.0.to_string()
    }

    /// Reads the number from its decimal text.
    pub fn from_str(s: &str) -> (r: Result<Self, NumberError>)
        ensures
            r == Self::parse(s@),
            r matches Ok(x) ==> x.0.valid(),
    {
        match NonZero32::from_str(s) {
            Ok(n) => Ok(ReconnectionToken(n)),
            Err(e) => Err(e),
        }
    }

    /// The text of a value reads back as that value.
    pub proof fn lemma_parse_text(self)
        requires
            self.0.valid(),
        ensures
            Self::parse(self.text()) == Ok::<Self, NumberError>(self),
    {
        self.0.lemma_parse_text();
    }
}

/// What a server shows to prove that it is the server.
#[derive(Clone, Copy, Debug, PartialEq, Eq, Structural, Hash, PartialOrd, Ord)]
pub struct ServerToken(pub NonZero64);

impl ServerToken {
    /// The decimal text of the number.
    pub open spec fn text(self) -> Seq<char> {
        self.0.text()
    }

    /// What a text denotes: a value of this type, or the reason why none.
    pub open spec fn parse(s: Seq<char>) -> Result<ServerToken, NumberError> {
        match NonZero64::parse(s) {
            Ok(n) => Ok(ServerToken(n)),
            Err(e) => Err(e),
        }
    }

    /// Writes the number in decimal.
    pub fn to_string(&self) -> (r: String)
        ensures
            r@ == self.text(),
    {
        self.0.to_string()
    }

    /// Reads the number from its decimal text.
    pub fn from_str(s: &str) -> (r: Result<Self, NumberError>)
        ensures
            r == Self::parse(s@),
            r matches Ok(x) ==> x.0.valid(),
    {
        match NonZero64::from_str(s) {
            Ok(n) => Ok(ServerToken(n)),
            Err(e) => Err(e),
        }
    }

    /// The text of a value reads back as that value.
    pub proof fn lemma_parse_text(self)
        requires
            self.0.valid(),
        ensures
            Self::parse(self.text()) == Ok::<Self, NumberError>(self),
    {
        self.0.lemma_parse_text();
    }
}

/// The number of a session.
#[derive(Clone, Copy, Debug, PartialEq, Eq, Structural, Hash)]
pub struct SessionId(pub NonZero64);

impl SessionId {
    /// The decimal text of the number.
    pub open spec fn text(self) -> Seq<char> {
        self.0.text()
    }

    /// What a text denotes: a value of this type, or the reason why none.
    pub open spec fn parse(s: Seq<char>) -> Result<SessionId, NumberError> {
        match NonZero64::parse(s) {
            Ok(n) => Ok(SessionId(n)),
            Err(e) => Err(e),
        }
    }

    /// Writes the number in decimal.
    pub fn to_string(&self) -> (r: String)
        ensures
            r@ == self.text(),
    {
        self.0.to_string()
    }

    /// Reads the number from its decimal text.
    pub fn from_str(s: &str) -> (r: Result<Self, NumberError>)
        ensures
            r == Self::parse(s@),
            r matches Ok(x) ==> x.0.valid(),
    {
        match NonZero64::from_str(s) {
            Ok(n) => Ok(SessionId(n)),
            Err(e) => Err(e),
        }
    }

    /// The text of a value reads back as that value.
    pub proof fn lemma_parse_text(self)
        requires
            self.0.valid(),
        ensures
            Self::parse(self.text()) == Ok::<Self, NumberError>(self),
    {
        self.0.lemma_parse_text();
    }
}

/// What a client shows to prove that a session is its own.
#[derive(Clone, Copy, Debug, PartialEq, Eq, Structural, Hash)]
pub struct SessionToken(pub NonZero64);

impl SessionToken {
    /// The decimal text of the number.
    pub open spec fn text(self) -> Seq<char> {
        self.0.text()
    }

    /// What a text denotes: a value of this type, or the reason why none.
    pub open spec fn parse(s: Seq<char>) -> Result<SessionToken, NumberError> {
        match NonZero64::parse(s) {
            Ok(n) => Ok(SessionToken(n)),
            Err(e) => Err(e),
        }
    }

    /// Writes the number in decimal.
    pub fn to_string(&self) -> (r: String)
        ensures
            r@ == self.text(),
    {
        self.0.to_string()
    }

    /// Reads the number from its decimal text.
    pub fn from_str(s: &str) -> (r: Result<Self, NumberError>)
        ensures
            r == Self::parse(s@),
            r matches Ok(x) ==> x.0.valid(),
    {
        match NonZero64::from_str(s) {
            Ok(n) => Ok(SessionToken(n)),
            Err(e) => Err(e),
        }
    }

    /// The text of a value reads back as that value.
    pub proof fn lemma_parse_text(self)
        requires
            self.0.valid(),
        ensures
            Self::parse(self.text()) == Ok::<Self, NumberError>(self),
    {
        self.0.lemma_parse_text();
    }
}

/// The number of a product.
#[derive(Clone, Copy, Debug, PartialEq, Eq, Structural, Hash)]
pub struct SkuId(pub NonZero64);

impl SkuId {
    /// The decimal text of the number.
    pub open spec fn text(self) -> Seq<char> {
        self.0.text()
    }

    /// What a text denotes: a value of this type, or the reason why none.
    pub open spec fn parse(s: Seq<char>) -> Result<SkuId, NumberError> {
        match NonZero64::parse(s) {
            Ok(n) => Ok(SkuId(n)),
            Err(e) => Err(e),
        }
    }

    /// Writes the number in decimal.
    pub fn to_string(&self) -> (r: String)
        ensures
            r@ == self.text(),
    {
        self.0.to_string()
    }

    /// Reads the number from its decimal text.
    pub fn from_str(s: &str) -> (r: Result<Self, NumberError>)
        ensures
            r == Self::parse(s@),
            r matches Ok(x) ==> x.0.valid(),
    {
        match NonZero64::from_str(s) {
            Ok(n) => Ok(SkuId(n)),
            Err(e) => Err(e),
        }
    }

    /// The text of a value reads back as that value.
    pub proof fn lemma_parse_text(self)
        requires
            self.0.valid(),
        ensures
            Self::parse(self.text()) == Ok::<Self, NumberError>(self),
    {
        self.0.lemma_parse_text();
    }
}

/// The hash by which versions of the client are told apart.
pub type ClientHash = u16;

impl CohortId {
    /// The cohort `n`, where `n` is 1, 2, 3 or 4.
    pub fn new(n: u8) -> (r: Option<Self>)
        ensures
            r is Some <==> 1 <= n <= 4,
            r matches Some(c) ==> c.0@ == n && c.0.valid(),
    {
        if n > 4 {
            return None;
        }
        match NonZero8::new(n) {
            Some(n) => Some(CohortId(n)),
            None => None,
        }
    }

    /// How much more often than others a cohort is drawn, for each of the four.
    pub fn weights() -> (r: [u8; 4])
        ensures
            r@ == seq![8u8, 4u8, 2u8, 1u8],
    {
        [8, 4, 2, 1]
    }

    /// The cohort that a drawn place among the weights stands for: places count
    /// from 0, and a place that is out of range stands for the first cohort.
    pub fn from_weighted_index(index: usize) -> (r: Self)
        ensures
            r.0@ == if index < 4 {
                index + 1
            } else {
                1
            },
            r.0.valid(),
    {
        if index < 4 {
            match Self::new(index as u8 + 1) {
                Some(c) => c,
                None => vstd::pervasive::unreached(),
            }
        } else {
            match Self::new(1) {
                Some(c) => c,
                None => vstd::pervasive::unreached(),
            }
        }
    }

    /// The four cohorts, in order.
    pub fn iter() -> (r: Vec<Self>)
        ensures
            r.len() == 4,
            forall|i: int| 0 <= i < 4 ==> (#[trigger] r[i]).0@ == i + 1,
    {
        let mut r: Vec<Self> = Vec::new();
        let mut i: u8 = 0;
        while i < 4
            invariant
                i <= 4,
                r.len() == i,
                forall|j: int| 0 <= j < i ==> (#[trigger] r[j]).0@ == j + 1,
            decreases 4 - i,
        {
            match Self::new(i + 1) {
                Some(c) => r.push(c),
                None => {},
            }
            i += 1;
        }
        r
    }
}

impl Default for CohortId {
    fn default() -> (r: Self)
        ensures
            r.0@ == 1,
    {
        match Self::new(1) {
            Some(c) => c,
            None => vstd::pervasive::unreached(),
        }
    }
}

} // verus!
