use crate::decimal::NumberError;
use crate::nonzero::NonZero8;
use crate::text::{
    first_index, lemma_count_zero, lemma_nth_index_joined, same_text, split_around, split_once,
    VariantNotFound,
};
use vstd::prelude::*;
use vstd::string::StringExecFns;

verus! {

/// Where a server runs.
#[derive(Clone, Copy, Debug, PartialEq, Eq, Structural, Hash, PartialOrd, Ord)]
pub enum ServerKind {
    /// A numbered host of the domain.
    Cloud,
    /// The local machine.
    Local,
}

impl ServerKind {
    pub fn is_cloud(&self) -> (r: bool)
        ensures
            r == (*self == ServerKind::Cloud),
    {
        matches!(self, ServerKind::Cloud)
    }

    pub fn is_local(&self) -> (r: bool)
        ensures
            r == (*self == ServerKind::Local),
    {
        matches!(self, ServerKind::Local)
    }

    /// The name of the kind.
    pub open spec fn text(self) -> Seq<char> {
        match self {
            ServerKind::Cloud => "Cloud"@,
            ServerKind::Local => "Local"@,
        }
    }

    /// The kind that a text names.
    pub open spec fn parse(s: Seq<char>) -> Result<ServerKind, VariantNotFound> {
        if s == "Cloud"@ {
            Ok(ServerKind::Cloud)
        } else if s == "Local"@ {
            Ok(ServerKind::Local)
        } else {
            Err(VariantNotFound)
        }
    }

    /// Writes the name of the kind.
    pub fn to_string(&self) -> (r: String)
        ensures
            r@ == self.text(),
    {
        match self {
            ServerKind::Cloud => String::from_str("Cloud"),
            ServerKind::Local => String::from_str("Local"),
        }
    }

    /// Reads the name of a kind.
    pub fn from_str(s: &str) -> (r: Result<Self, VariantNotFound>)
        ensures
            r == Self::parse(s@),
    {
        if same_text(s, "Cloud") {
            Ok(ServerKind::Cloud)
        } else if same_text(s, "Local") {
            Ok(ServerKind::Local)
        } else {
            Err(VariantNotFound)
        }
    }

    /// The name of a kind reads back as that kind, and holds no slash.
    pub proof fn lemma_parse_text(self)
        ensures
            Self::parse(self.text()) == Ok::<Self, VariantNotFound>(self),
            !self.text().contains('/'),
    {
        reveal_strlit("Cloud");
        reveal_strlit("Local");
        assert("Cloud"@[0] != "Local"@[0]);
    }
}

/// The number of a server, never zero.
#[derive(Clone, Copy, Debug, PartialEq, Eq, Structural, Hash, PartialOrd, Ord)]
pub struct ServerNumber(pub NonZero8);

impl ServerNumber {
    /// The server number `val`, unless `val` is zero.
    pub fn new(val: u8) -> (r: Option<Self>)
        ensures
            r is Some <==> val != 0,
            r matches Some(n) ==> n.0@ == val && n.0.valid(),
    {
        match NonZero8::new(val) {
            Some(n) => Some(ServerNumber(n)),
            None => None,
        }
    }

    /// The decimal text of the number.
    pub open spec fn text(self) -> Seq<char> {
        self.0.text()
    }

    /// What a text denotes: a server number, or the reason why none.
    pub open spec fn parse(s: Seq<char>) -> Result<ServerNumber, NumberError> {
        match NonZero8::parse(s) {
            Ok(n) => Ok(ServerNumber(n)),
            Err(e) => Err(e),
        }
    }

    /// Writes the number in decimal.
    pub fn to_string(&self) -> (r: String)
        ensures
            r@ == self.text(),
    {
        self.0.to_string()
    }

    /// Reads a server number.
    pub fn from_str(s: &str) -> (r: Result<Self, NumberError>)
        ensures
            r == Self::parse(s@),
            r matches Ok(n) ==> n.0.valid(),
    {
        match NonZero8::from_str(s) {
            Ok(n) => Ok(ServerNumber(n)),
            Err(e) => Err(e),
        }
    }
}

/// A server: its kind and its number.
#[derive(Clone, Copy, Debug, PartialEq, Eq, Structural, Hash, PartialOrd, Ord)]
pub struct ServerId {
    pub kind: ServerKind,
    pub number: ServerNumber,
}

/// Why a text is no server id.
#[derive(Clone, Copy, Debug, PartialEq, Eq, Structural)]
pub enum InvalidServerId {
    MissingSlash,
    InvalidKind,
    InvalidNumber,
}

impl ServerId {
    /// The number of the server if it is a cloud server.
    pub fn cloud_server_number(self) -> (r: Option<ServerNumber>)
        ensures
            r == if self.kind == ServerKind::Cloud {
                Some(self.number)
            } else {
                None
            },
    {
        if self.kind.is_cloud() {
            Some(self.number)
        } else {
            None
        }
    }

    /// The text of a server id: kind, slash, number.
    pub open spec fn text(self) -> Seq<char> {
        self.kind.text() + seq!['/'] + self.number.text()
    }

    /// What a text denotes: a server id, or the reason why none.
    pub open spec fn parse(s: Seq<char>) -> Result<ServerId, InvalidServerId> {
        match first_index(s, '/') {
            None => Err(InvalidServerId::MissingSlash),
            Some(i) => match ServerKind::parse(split_around(s, i).0) {
                Err(_) => Err(InvalidServerId::InvalidKind),
                Ok(kind) => match ServerNumber::parse(split_around(s, i).1) {
                    Err(_) => Err(InvalidServerId::InvalidNumber),
                    Ok(number) => Ok(ServerId { kind, number }),
                },
            },
        }
    }

    /// Writes the id as text.
    pub fn to_string(&self) -> (r: String)
        ensures
            r@ == self.text(),
    {
        let mut r = self.kind.to_string();
        r.push('/');
        let number = self.number.to_string();
        r.append(number.as_str());
        r
    }

    /// Reads a server id from text.
    pub fn from_str(s: &str) -> (r: Result<Self, InvalidServerId>)
        ensures
            r == Self::parse(s@),
            r matches Ok(id) ==> id.number.0.valid(),
    {
        let (kind, number) = match split_once(s, '/') {
            Some(pair) => pair,
            None => {
                return Err(InvalidServerId::MissingSlash);
            },
        };
        let kind = match ServerKind::from_str(kind) {
            Ok(kind) => kind,
            Err(_) => {
                return Err(InvalidServerId::InvalidKind);
            },
        };
        match ServerNumber::from_str(number) {
            Ok(number) => Ok(ServerId { kind, number }),
            Err(_) => Err(InvalidServerId::InvalidNumber),
        }
    }

    /// The text of a server id reads back as that id, and holds one slash.
    pub proof fn lemma_parse_text(self)
        requires
            self.number.0.valid(),
        ensures
            Self::parse(self.text()) == Ok::<Self, InvalidServerId>(self),
            crate::text::count_of(self.text(), '/') == 1,
    {
        let kind = self.kind.text();
        let number = self.number.text();
        let slash = seq!['/'];
        self.kind.lemma_parse_text();
        self.number.0.lemma_parse_text();
        lemma_count_zero(kind, '/');
        lemma_nth_index_joined(kind, number, '/', 0);
        crate::decimal::lemma_decimal_digits(self.number.0@ as nat);
        assert(!number.contains('/')) by {
            if number.contains('/') {
                let j = choose|j: int| 0 <= j < number.len() && number[j] == '/';
                assert(crate::decimal::is_digit(number[j]));
            }
        }
        lemma_count_zero(number, '/');
        assert(crate::text::count_of(slash, '/') == 1) by {
            assert(slash.drop_first() == Seq::<char>::empty());
            assert(crate::text::count_of(slash.drop_first(), '/') == 0);
        }
        crate::text::lemma_count_concat(kind, slash, '/');
        crate::text::lemma_count_concat(kind + slash, number, '/');
    }
}

} // verus!
