use crate::decimal::NumberError;
use crate::nonzero::{NonZero16, NonZero64};
use vstd::prelude::*;

verus! {

/// A player in an arena: clients have the odd numbers from 1, bots the even numbers from 2.
#[derive(Clone, Copy, Debug, PartialEq, Eq, Structural, Hash, PartialOrd, Ord)]
pub struct PlayerId(pub NonZero16);

impl PlayerId {
    /// The decimal text of the number.
    pub open spec fn text(self) -> Seq<char> {
        self.0.text()
    }

    /// What a text denotes: a value of this type, or the reason why none.
    pub open spec fn parse(s: Seq<char>) -> Result<PlayerId, NumberError> {
        match NonZero16::parse(s) {
            Ok(n) => Ok(PlayerId(n)),
            Err(e) => Err(e),
        }
    }

    /// Writes the number in decimal.
    pub fn to_string(&self) -> (r: String)
        ensures
            r@ == self.text(),
    {
        self.0.to_string()
    }

    /// Reads the number from its decimal text.
    pub fn from_str(s: &str) -> (r: Result<Self, NumberError>)
        ensures
            r == Self::parse(s@),
            r matches Ok(x) ==> x.0.valid(),
    {
        match NonZero16::from_str(s) {
            Ok(n) => Ok(PlayerId(n)),
            Err(e) => Err(e),
        }
    }

    /// The text of a value reads back as that value.
    pub proof fn lemma_parse_text(self)
        requires
            self.0.valid(),
        ensures
            Self::parse(self.text()) == Ok::<Self, NumberError>(self),
    {
        self.0.lemma_parse_text();
    }
}

/// The number of a team.
#[derive(Clone, Copy, Debug, PartialEq, Eq, Structural, Hash, PartialOrd, Ord)]
pub struct TeamId(pub NonZero16);

impl TeamId {
    /// The decimal text of the number.
    pub open spec fn text(self) -> Seq<char> {
        self.0.text()
    }

    /// What a text denotes: a value of this type, or the reason why none.
    pub open spec fn parse(s: Seq<char>) -> Result<TeamId, NumberError> {
        match NonZero16::parse(s) {
            Ok(n) => Ok(TeamId(n)),
            Err(e) => Err(e),
        }
    }

    /// Writes the number in decimal.
    pub fn to_string(&self) -> (r: String)
        ensures
            r@ == self.text(),
    {
        self.0.to_string()
    }

    /// Reads the number from its decimal text.
    pub fn from_str(s: &str) -> (r: Result<Self, NumberError>)
        ensures
            r == Self::parse(s@),
            r matches Ok(x) ==> x.0.valid(),
    {
        match NonZero16::from_str(s) {
            Ok(n) => Ok(TeamId(n)),
            Err(e) => Err(e),
        }
    }

    /// The text of a value reads back as that value.
    pub proof fn lemma_parse_text(self)
        requires
            self.0.valid(),
        ensures
            Self::parse(self.text()) == Ok::<Self, NumberError>(self),
    {
        self.0.lemma_parse_text();
    }
}

/// What a player shows to join a team.
#[derive(Clone, Copy, Debug, PartialEq, Eq, Structural, Hash)]
pub struct TeamToken(pub NonZero16);

impl TeamToken {
    /// The decimal text of the number.
    pub open spec fn text(self) -> Seq<char> {
        self.0.text()
    }

    /// What a text denotes: a value of this type, or the reason why none.
    pub open spec fn parse(s: Seq<char>) -> Result<TeamToken, NumberError> {
        match NonZero16::parse(s) {
            Ok(n) => Ok(TeamToken(n)),
            Err(e) => Err(e),
        }
    }

    /// Writes the number in decimal.
    pub fn to_string(&self) -> (r: String)
        ensures
            r@ == self.text(),
    {
        self.0.to_string()
    }

    /// Reads the number from its decimal text.
    pub fn from_str(s: &str) -> (r: Result<Self, NumberError>)
        ensures
            r == Self::parse(s@),
            r matches Ok(x) ==> x.0.valid(),
    {
        match NonZero16::from_str(s) {
            Ok(n) => Ok(TeamToken(n)),
            Err(e) => Err(e),
        }
    }

    /// The text of a value reads back as that value.
    pub proof fn lemma_parse_text(self)
        requires
            self.0.valid(),
        ensures
            Self::parse(self.text()) == Ok::<Self, NumberError>(self),
    {
        self.0.lemma_parse_text();
    }
}

/// A user who signed in.
#[derive(Clone, Copy, Debug, PartialEq, Eq, Structural, Hash, PartialOrd, Ord)]
pub struct UserId(pub NonZero64);

impl UserId {
    /// The decimal text of the number.
    pub open spec fn text(self) -> Seq<char> {
        self.0.text()
    }

    /// What a text denotes: a value of this type, or the reason why none.
    pub open spec fn parse(s: Seq<char>) -> Result<UserId, NumberError> {
        match NonZero64::parse(s) {
            Ok(n) => Ok(UserId(n)),
            Err(e) => Err(e),
        }
    }

    /// Writes the number in decimal.
    pub fn to_string(&self) -> (r: String)
        ensures
            r@ == self.text(),
    {
        self.0.to_string()
    }

    /// Reads the number from its decimal text.
    pub fn from_str(s: &str) -> (r: Result<Self, NumberError>)
        ensures
            r == Self::parse(s@),
            r matches Ok(x) ==> x.0.valid(),
    {
        match NonZero64::from_str(s) {
            Ok(n) => Ok(UserId(n)),
            Err(e) => Err(e),
        }
    }

    /// The text of a value reads back as that value.
    pub proof fn lemma_parse_text(self)
        requires
            self.0.valid(),
        ensures
            Self::parse(self.text()) == Ok::<Self, NumberError>(self),
    {
        self.0.lemma_parse_text();
    }
}

/// A visitor, known over time.
#[derive(Clone, Copy, Debug, PartialEq, Eq, Structural, Hash, PartialOrd, Ord)]
pub struct VisitorId(pub NonZero64);

impl VisitorId {
    /// The decimal text of the number.
    pub open spec fn text(self) -> Seq<char> {
        self.0.text()
    }

    /// What a text denotes: a value of this type, or the reason why none.
    pub open spec fn parse(s: Seq<char>) -> Result<VisitorId, NumberError> {
        match NonZero64::parse(s) {
            Ok(n) => Ok(VisitorId(n)),
            Err(e) => Err(e),
        }
    }

    /// Writes the number in decimal.
    pub fn to_string(&self) -> (r: String)
        ensures
            r@ == self.text(),
    {
        self.0.to_string()
    }

    /// Reads the number from its decimal text.
    pub fn from_str(s: &str) -> (r: Result<Self, NumberError>)
        ensures
            r == Self::parse(s@),
            r matches Ok(x) ==> x.0.valid(),
    {
        match NonZero64::from_str(s) {
            Ok(n) => Ok(VisitorId(n)),
            Err(e) => Err(e),
        }
    }

    /// The text of a value reads back as that value.
    pub proof fn lemma_parse_text(self)
        requires
            self.0.valid(),
        ensures
            Self::parse(self.text()) == Ok::<Self, NumberError>(self),
    {
        self.0.lemma_parse_text();
    }
}

impl PlayerId {
    /// Whether the id is one of a bot: an even number.
    pub open spec fn spec_is_bot(self) -> bool {
        self.0@ % 2 == 0
    }

    /// Whether the id is one of a client: an odd number.
    pub open spec fn spec_is_client(self) -> bool {
        self.0@ % 2 == 1
    }

    /// The place of a client among the clients, counted from 0; none for a bot.
    pub fn client_number(self) -> (r: Option<usize>)
        ensures
            r == if self.spec_is_client() {
                Some(((self.0@ - 1) / 2) as usize)
            } else {
                None
            },
    {
        if self.is_client() {
            Some((self.0.get() as usize - 1) / 2)
        } else {
            None
        }
    }

    /// The place of a bot among the bots, counted from 0; none for a client.
    pub fn bot_number(self) -> (r: Option<usize>)
        ensures
            r == if self.spec_is_bot() {
                Some((self.0@ / 2 - 1) as usize)
            } else {
                None
            },
    {
        if self.is_bot() {
            Some(self.0.get() as usize / 2 - 1)
        } else {
            None
        }
    }

    /// The id of the client at place `n`, where a `u16` can hold it.
    pub fn nth_client(n: usize) -> (r: Option<Self>)
        ensures
            r is Some <==> 2 * n + 1 <= u16::MAX,
            r matches Some(id) ==> id.0@ == 2 * n + 1 && id.spec_is_client() && id.0.valid(),
    {
        if n > 32767 {
            return None;
        }
        let id: u16 = (n as u16) * 2 + 1;
        match NonZero16::new(id) {
            Some(id) => Some(PlayerId(id)),
            None => None,
        }
    }

    /// The id of the bot at place `n`, where a `u16` can hold it.
    pub fn nth_bot(n: usize) -> (r: Option<Self>)
        ensures
            r is Some <==> 2 * (n + 1) <= u16::MAX,
            r matches Some(id) ==> id.0@ == 2 * (n + 1) && id.spec_is_bot() && id.0.valid(),
    {
        if n > 32766 {
            return None;
        }
        let id: u16 = (n as u16 + 1) * 2;
        match NonZero16::new(id) {
            Some(id) => Some(PlayerId(id)),
            None => None,
        }
    }

    /// Tells whether the id is one of a bot.
    #[verifier::when_used_as_spec(spec_is_bot)]
    pub fn is_bot(self) -> (r: bool)
        ensures
            r == self.spec_is_bot(),
    {
        self.0.get() % 2 == 0
    }

    /// Tells whether the id is one of a client.
    #[verifier::when_used_as_spec(spec_is_client)]
    pub fn is_client(self) -> (r: bool)
        ensures
            r == self.spec_is_client(),
    {
        self.0.get() % 2 == 1
    }
}

} // verus!
