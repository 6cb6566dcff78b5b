use crate::ids::game::{InvalidInvitationId, InvitationId};
use crate::names::realm::{InvalidRealmName, RealmName};
use crate::text::{
    count_of, first_index, last_index, lemma_count_concat, lemma_count_zero,
    lemma_last_index_joined, lemma_nth_index_joined, same_text, split_around, split_once,
};
use vstd::prelude::*;
use vstd::string::StringExecFns;
use vstd::utf8::encode_utf8;

verus! {

/// A partition of the players of a game.
#[derive(Clone, Copy, Debug, PartialEq, Eq, Hash, PartialOrd, Ord)]
pub enum RealmId {
    Named(RealmName),
    PublicDefault,
    Temporary(InvitationId),
}

/// What a realm id is, with the name as plain text.
pub ghost enum RealmIdView {
    Named(Seq<char>),
    PublicDefault,
    Temporary(InvitationId),
}

/// Why a text is no realm id.
#[derive(Clone, Copy, Debug, PartialEq, Eq, Structural)]
pub enum InvalidRealmId {
    InvalidRealmName(InvalidRealmName),
    InvalidTemporaryRealmInvitationId(InvalidInvitationId),
    MissingSlash,
    Prefix,
}

impl View for RealmId {
    type V = RealmIdView;

    open spec fn view(&self) -> RealmIdView {
        match self {
            RealmId::Named(name) => RealmIdView::Named(name@),
            RealmId::PublicDefault => RealmIdView::PublicDefault,
            RealmId::Temporary(invitation_id) => RealmIdView::Temporary(*invitation_id),
        }
    }
}

impl Default for RealmId {
    fn default() -> (r: Self)
        ensures
            r@ == RealmIdView::PublicDefault,
    {
        RealmId::PublicDefault
    }
}

impl RealmIdView {
    /// The text of a realm id: its kind, a slash, and what tells it from others
    /// of its kind.
    pub open spec fn text(self) -> Seq<char> {
        match self {
            RealmIdView::PublicDefault => "public/default"@,
            RealmIdView::Named(name) => "named/"@ + name,
            RealmIdView::Temporary(invitation_id) => "temporary/"@ + invitation_id.text(),
        }
    }

    /// Whether the id can be made and read back: its name is not the reserved one
    /// and fits, its invitation has a server number.
    pub open spec fn valid(self) -> bool {
        match self {
            RealmIdView::PublicDefault => true,
            RealmIdView::Named(name) => name != "www"@ && encode_utf8(name).len() <= 12,
            RealmIdView::Temporary(invitation_id) => invitation_id.server_number.0.valid(),
        }
    }

    /// What a text denotes: a realm id, or the reason why none.
    pub open spec fn parse(s: Seq<char>) -> Result<RealmIdView, InvalidRealmId> {
        if s == "public/default"@ {
            Ok(RealmIdView::PublicDefault)
        } else {
            match first_index(s, '/') {
                None => Err(InvalidRealmId::MissingSlash),
                Some(i) => {
                    let (prefix, value) = split_around(s, i);
                    if prefix == "named"@ {
                        match RealmName::parse(value) {
                            Ok(name) => Ok(RealmIdView::Named(name)),
                            Err(e) => Err(InvalidRealmId::InvalidRealmName(e)),
                        }
                    } else if prefix == "temporary"@ {
                        match InvitationId::parse(value) {
                            Ok(invitation_id) => Ok(RealmIdView::Temporary(invitation_id)),
                            Err(e) => Err(InvalidRealmId::InvalidTemporaryRealmInvitationId(e)),
                        }
                    } else {
                        Err(InvalidRealmId::Prefix)
                    }
                },
            }
        }
    }

    /// The text of a realm id reads back as that id.
    pub proof fn lemma_parse_text(self)
        requires
            self.valid(),
        ensures
            Self::parse(self.text()) == Ok::<Self, InvalidRealmId>(self),
    {
        reveal_strlit("public/default");
        reveal_strlit("named/");
        reveal_strlit("named");
        reveal_strlit("temporary/");
        reveal_strlit("temporary");
        match self {
            RealmIdView::PublicDefault => {},
            RealmIdView::Named(name) => {
                let s = self.text();
                assert(s[0] == 'n');
                assert(s != "public/default"@);
                assert("named/"@ == "named"@ + seq!['/']);
                assert(!"named"@.contains('/'));
                lemma_count_zero("named"@, '/');
                lemma_nth_index_joined("named"@, name, '/', 0);
            },
            RealmIdView::Temporary(invitation_id) => {
                let s = self.text();
                assert(s[0] == 't');
                assert(s != "public/default"@);
                assert("temporary/"@ == "temporary"@ + seq!['/']);
                assert(!"temporary"@.contains('/'));
                assert("temporary"@ != "named"@) by {
                    assert("temporary"@[0] != "named"@[0]);
                }
                lemma_count_zero("temporary"@, '/');
                lemma_nth_index_joined("temporary"@, invitation_id.text(), '/', 0);
                invitation_id.lemma_parse_text();
            },
        }
    }

    /// The text of a realm id whose name holds no slash holds exactly one.
    pub proof fn lemma_text_one_slash(self)
        requires
            self.valid(),
            self matches RealmIdView::Named(name) ==> !name.contains('/'),
        ensures
            count_of(self.text(), '/') == 1,
    {
        reveal_strlit("public/default");
        reveal_strlit("named/");
        reveal_strlit("temporary/");
        let slash = seq!['/'];
        assert(count_of(slash, '/') == 1) by {
            assert(slash.drop_first() == Seq::<char>::empty());
            assert(count_of(slash.drop_first(), '/') == 0);
        }
        match self {
            RealmIdView::PublicDefault => {
                let a = seq!['p', 'u', 'b', 'l', 'i', 'c'];
                let b = seq!['d', 'e', 'f', 'a', 'u', 'l', 't'];
                assert("public/default"@ == a + slash + b);
                lemma_count_zero(a, '/');
                lemma_count_zero(b, '/');
                lemma_count_concat(a, slash, '/');
                lemma_count_concat(a + slash, b, '/');
            },
            RealmIdView::Named(name) => {
                let a = seq!['n', 'a', 'm', 'e', 'd'];
                assert("named/"@ == a + slash);
                lemma_count_zero(a, '/');
                lemma_count_zero(name, '/');
                lemma_count_concat(a, slash, '/');
                lemma_count_concat(a + slash, name, '/');
            },
            RealmIdView::Temporary(invitation_id) => {
                let a = seq!['t', 'e', 'm', 'p', 'o', 'r', 'a', 'r', 'y'];
                assert("temporary/"@ == a + slash);
                invitation_id.lemma_parse_text();
                lemma_count_zero(a, '/');
                lemma_count_zero(invitation_id.text(), '/');
                lemma_count_concat(a, slash, '/');
                lemma_count_concat(a + slash, invitation_id.text(), '/');
            },
        }
    }
}

impl RealmIdView {
    /// The text of a realm id whose name holds no slash begins with none of the
    /// letters of `invite`, and what stands before its last slash holds no slash.
    pub proof fn lemma_text_shape(self)
        requires
            self.valid(),
            self matches RealmIdView::Named(name) ==> !name.contains('/'),
        ensures
            self.text().len() > 0,
            self.text()[0] != 'i',
            last_index(self.text(), '/') matches Some(i) && !self.text().take(i).contains('/'),
    {
        reveal_strlit("public/default");
        reveal_strlit("named/");
        reveal_strlit("temporary/");
        let slash = seq!['/'];
        let s = self.text();
        match self {
            RealmIdView::PublicDefault => {
                let a = seq!['p', 'u', 'b', 'l', 'i', 'c'];
                let b = seq!['d', 'e', 'f', 'a', 'u', 'l', 't'];
                assert(s == a + slash + b);
                lemma_last_index_joined(a, b, '/');
                assert(s.take(a.len() as int) == a);
            },
            RealmIdView::Named(name) => {
                let a = seq!['n', 'a', 'm', 'e', 'd'];
                assert(s == a + slash + name);
                lemma_last_index_joined(a, name, '/');
                assert(s.take(a.len() as int) == a);
            },
            RealmIdView::Temporary(invitation_id) => {
                let a = seq!['t', 'e', 'm', 'p', 'o', 'r', 'a', 'r', 'y'];
                invitation_id.lemma_parse_text();
                assert(s == a + slash + invitation_id.text());
                lemma_last_index_joined(a, invitation_id.text(), '/');
                assert(s.take(a.len() as int) == a);
            },
        }
    }
}

impl RealmId {
    /// The realm that an optional id stands for: none is the public default realm.
    pub fn from_opt(realm_id_opt: Option<Self>) -> (r: Self)
        ensures
            r == match realm_id_opt {
                None => RealmId::PublicDefault,
                Some(realm_id) => realm_id,
            },
    {
        match realm_id_opt {
            None => RealmId::PublicDefault,
            Some(realm_id) => realm_id,
        }
    }

    /// The id as an optional one: the public default realm is none.
    pub fn into_opt(self) -> (r: Option<Self>)
        ensures
            r == match self {
                RealmId::PublicDefault => None,
                _ => Some(self),
            },
    {
        match self {
            RealmId::PublicDefault => None,
            _ => Some(self),
        }
    }

    pub fn is_public_default(self) -> (r: bool)
        ensures
            r == (self is PublicDefault),
    {
        matches!(self, RealmId::PublicDefault)
    }

    pub fn is_named(self) -> (r: bool)
        ensures
            r == (self is Named),
    {
        matches!(self, RealmId::Named(_))
    }

    pub fn is_temporary(self) -> (r: bool)
        ensures
            r == (self is Temporary),
    {
        matches!(self, RealmId::Temporary(_))
    }

    /// The invitation of a temporary realm.
    pub fn temporary(self) -> (r: Option<InvitationId>)
        ensures
            r == match self {
                RealmId::Temporary(invitation_id) => Some(invitation_id),
                _ => None,
            },
    {
        if let RealmId::Temporary(invitation_id) = self {
            Some(invitation_id)
        } else {
            None
        }
    }

    /// Tells whether two ids are of the same realm.
    pub fn same(&self, other: &Self) -> (r: bool)
        ensures
            r == (self@ == other@),
    {
        match (self, other) {
            (RealmId::Named(a), RealmId::Named(b)) => a.same(b),
            (RealmId::PublicDefault, RealmId::PublicDefault) => true,
            (RealmId::Temporary(a), RealmId::Temporary(b)) => *a == *b,
            _ => false,
        }
    }

    /// Writes the id as text.
    pub fn to_string(&self) -> (r: String)
        ensures
            r@ == self@.text(),
    {
        match self {
            RealmId::PublicDefault => String::from_str("public/default"),
            RealmId::Named(name) => {
                let mut r = String::from_str("named/");
                r.append(name.as_str());
                r
            },
            RealmId::Temporary(invitation_id) => {
                let mut r = String::from_str("temporary/");
                let code = invitation_id.to_string();
                r.append(code.as_str());
                r
            },
        }
    }

    /// Reads a realm id from text.
    pub fn from_str(s: &str) -> (r: Result<Self, InvalidRealmId>)
        ensures
            match r {
                Ok(id) => RealmIdView::parse(s@) == Ok::<RealmIdView, InvalidRealmId>(id@)
                    && id@.valid(),
                Err(e) => RealmIdView::parse(s@) == Err::<RealmIdView, InvalidRealmId>(e),
            },
    {
        if same_text(s, "public/default") {
            return Ok(RealmId::PublicDefault);
        }
        let (prefix, value) = match split_once(s, '/') {
            Some(pair) => pair,
            None => {
                return Err(InvalidRealmId::MissingSlash);
            },
        };
        if same_text(prefix, "named") {
            match RealmName::from_str(value) {
                Ok(name) => Ok(RealmId::Named(name)),
                Err(e) => Err(InvalidRealmId::InvalidRealmName(e)),
            }
        } else if same_text(prefix, "temporary") {
            match InvitationId::from_str(value) {
                Ok(invitation_id) => Ok(RealmId::Temporary(invitation_id)),
                Err(e) => Err(InvalidRealmId::InvalidTemporaryRealmInvitationId(e)),
            }
        } else {
            Err(InvalidRealmId::Prefix)
        }
    }
}

} // verus!
