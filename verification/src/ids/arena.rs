use crate::decimal::NumberError;
use crate::ids::game::InvitationId;
use crate::ids::realm::{InvalidRealmId, RealmId, RealmIdView};
use crate::ids::scene::{InstanceNumber, InvalidSceneId, SceneId, TierNumber};
use crate::ids::tokens::ReconnectionToken;
use crate::ids::visitor::PlayerId;
use crate::nonzero::NonZero32;
use crate::text::{
    last_index, lemma_last_index_joined, rsplit_once, same_text, split_around, starts_with,
    strip_prefix, strip_suffix_char,
};
use vstd::prelude::*;
use vstd::string::StringExecFns;

verus! {

/// An arena: a scene of a realm.
#[derive(Clone, Copy, Debug, PartialEq, Eq, Hash)]
pub struct ArenaId {
    pub realm_id: RealmId,
    pub scene_id: SceneId,
}

/// An arena id with the name of its realm as plain text.
pub ghost struct ArenaIdView {
    pub realm_id: RealmIdView,
    pub scene_id: SceneId,
}

/// Why a text is no arena id.
#[derive(Clone, Copy, Debug, PartialEq, Eq, Structural)]
pub enum InvalidArenaId {
    InvalidRealmId(InvalidRealmId),
    InvalidSceneId(InvalidSceneId),
    MissingSlash,
}

impl View for ArenaId {
    type V = ArenaIdView;

    open spec fn view(&self) -> ArenaIdView {
        ArenaIdView { realm_id: self.realm_id@, scene_id: self.scene_id }
    }
}

impl Default for ArenaId {
    fn default() -> (r: Self)
        ensures
            r@ == (ArenaIdView {
                realm_id: RealmIdView::PublicDefault,
                scene_id: SceneId { tier_number: None, instance_number: InstanceNumber(0) },
            }),
    {
        ArenaId {
            realm_id: RealmId::PublicDefault,
            scene_id: SceneId { tier_number: None, instance_number: InstanceNumber(0) },
        }
    }
}

impl ArenaIdView {
    /// The text of an arena: realm, slash, scene.
    pub open spec fn text(self) -> Seq<char> {
        self.realm_id.text() + seq!['/'] + self.scene_id.text()
    }

    /// Whether the arena can be read back: its realm is valid, and the tier of its
    /// scene, if any, is 26 at most.
    pub open spec fn valid(self) -> bool {
        &&& self.realm_id.valid()
        &&& self.scene_id.tier_number matches Some(t) ==> t.0.valid() && t.0@ <= 26
    }

    /// What a text denotes: an arena id, or the reason why none. The text is
    /// parted at its last slash.
    pub open spec fn parse(s: Seq<char>) -> Result<ArenaIdView, InvalidArenaId> {
        match last_index(s, '/') {
            None => Err(InvalidArenaId::MissingSlash),
            Some(i) => match RealmIdView::parse(split_around(s, i).0) {
                Err(e) => Err(InvalidArenaId::InvalidRealmId(e)),
                Ok(realm_id) => match SceneId::parse(split_around(s, i).1) {
                    Err(e) => Err(InvalidArenaId::InvalidSceneId(e)),
                    Ok(scene_id) => Ok(ArenaIdView { realm_id, scene_id }),
                },
            },
        }
    }

    /// The text of an arena reads back as that arena.
    pub proof fn lemma_parse_text(self)
        requires
            self.valid(),
        ensures
            Self::parse(self.text()) == Ok::<Self, InvalidArenaId>(self),
    {
        self.realm_id.lemma_parse_text();
        self.scene_id.lemma_parse_text();
        lemma_last_index_joined(self.realm_id.text(), self.scene_id.text(), '/');
    }
}

impl ArenaId {
    pub fn new(realm_id: RealmId, scene_id: SceneId) -> (r: Self)
        ensures
            r == (ArenaId { realm_id, scene_id }),
    {
        ArenaId { realm_id, scene_id }
    }

    /// Tells whether two ids are of the same arena.
    pub fn same(&self, other: &Self) -> (r: bool)
        ensures
            r == (self@ == other@),
    {
        self.realm_id.same(&other.realm_id) && self.scene_id == other.scene_id
    }

    /// Writes the id as text.
    pub fn to_string(&self) -> (r: String)
        ensures
            r@ == self@.text(),
    {
        let mut r = self.realm_id.to_string();
        r.push('/');
        let scene = self.scene_id.to_string();
        r.append(scene.as_str());
        r
    }

    /// Reads an arena id from text.
    pub fn from_str(s: &str) -> (r: Result<Self, InvalidArenaId>)
        ensures
            match r {
                Ok(id) => ArenaIdView::parse(s@) == Ok::<ArenaIdView, InvalidArenaId>(id@),
                Err(e) => ArenaIdView::parse(s@) == Err::<ArenaIdView, InvalidArenaId>(e),
            },
    {
        let (realm_id, scene_id) = match rsplit_once(s, '/') {
            Some(pair) => pair,
            None => {
                return Err(InvalidArenaId::MissingSlash);
            },
        };
        let realm_id = match RealmId::from_str(realm_id) {
            Ok(realm_id) => realm_id,
            Err(e) => {
                return Err(InvalidArenaId::InvalidRealmId(e));
            },
        };
        match SceneId::from_str(scene_id) {
            Ok(scene_id) => Ok(ArenaId { realm_id, scene_id }),
            Err(e) => Err(InvalidArenaId::InvalidSceneId(e)),
        }
    }
}

/// What a player asks to be put in.
#[derive(Clone, Copy, Debug, PartialEq, Eq)]
pub enum ArenaQuery {
    /// A given arena, and with it, for a player who comes back, who the player
    /// was and the token to prove it.
    Specific(ArenaId, Option<(PlayerId, ReconnectionToken)>),
    /// Any arena of a tier of a realm.
    AnyInstance(RealmId, Option<TierNumber>),
    /// A new temporary realm.
    NewTemporary,
    /// The temporary realm of an invitation.
    Invitation(InvitationId),
}

/// An arena query with the names of realms as plain text.
pub ghost enum ArenaQueryView {
    Specific(ArenaIdView, Option<(PlayerId, ReconnectionToken)>),
    AnyInstance(RealmIdView, Option<TierNumber>),
    NewTemporary,
    Invitation(InvitationId),
}

impl View for ArenaQuery {
    type V = ArenaQueryView;

    open spec fn view(&self) -> ArenaQueryView {
        match self {
            ArenaQuery::Specific(arena_id, returning) => ArenaQueryView::Specific(
                arena_id@,
                *returning,
            ),
            ArenaQuery::AnyInstance(realm_id, tier_number) => ArenaQueryView::AnyInstance(
                realm_id@,
                *tier_number,
            ),
            ArenaQuery::NewTemporary => ArenaQueryView::NewTemporary,
            ArenaQuery::Invitation(invitation_id) => ArenaQueryView::Invitation(*invitation_id),
        }
    }
}

impl Default for ArenaQuery {
    fn default() -> (r: Self)
        ensures
            r@ == ArenaQueryView::AnyInstance(RealmIdView::PublicDefault, None),
    {
        ArenaQuery::AnyInstance(RealmId::PublicDefault, None)
    }
}

impl ArenaQueryView {
    /// The text of a query.
    pub open spec fn text(self) -> Seq<char> {
        match self {
            ArenaQueryView::Specific(arena_id, returning) => match returning {
                Some((player_id, token)) => arena_id.text() + seq!['/'] + player_id.text()
                    + seq!['/'] + token.text(),
                None => arena_id.text(),
            },
            ArenaQueryView::AnyInstance(realm_id, tier_number) => (ArenaIdView {
                realm_id,
                scene_id: SceneId { tier_number, instance_number: InstanceNumber(0) },
            }).text() + seq!['?'],
            ArenaQueryView::NewTemporary => "temporary"@,
            ArenaQueryView::Invitation(invitation_id) => "invite/"@ + invitation_id.text(),
        }
    }

    /// What a text denotes as the query of a player who comes back: an arena, a
    /// slash, the number of the player, a slash, and the token; none where the
    /// text is not of that form.
    pub open spec fn parse_returning(s: Seq<char>) -> Option<ArenaQueryView> {
        match last_index(s, '/') {
            None => None,
            Some(i) => match ReconnectionToken::parse(split_around(s, i).1) {
                Err(_) => None,
                Ok(token) => {
                    let rest = split_around(s, i).0;
                    match last_index(rest, '/') {
                        None => None,
                        Some(j) => match PlayerId::parse(split_around(rest, j).1) {
                            Err(_) => None,
                            Ok(player_id) => match ArenaIdView::parse(split_around(rest, j).0) {
                                Err(_) => None,
                                Ok(arena_id) => Some(
                                    ArenaQueryView::Specific(arena_id, Some((player_id, token))),
                                ),
                            },
                        },
                    }
                },
            },
        }
    }

    /// What a text denotes: a query, or the reason why none.
    pub open spec fn parse(s: Seq<char>) -> Result<ArenaQueryView, InvalidArenaId> {
        if s == "temporary"@ {
            Ok(ArenaQueryView::NewTemporary)
        } else if s.len() > 0 && s.last() == '?' {
            match ArenaIdView::parse(s.drop_last()) {
                Err(e) => Err(e),
                Ok(arena_id) => if arena_id.scene_id.instance_number != InstanceNumber(0) {
                    Err(InvalidArenaId::InvalidSceneId(InvalidSceneId::InvalidInstanceNumber))
                } else {
                    Ok(ArenaQueryView::AnyInstance(arena_id.realm_id, arena_id.scene_id.tier_number))
                },
            }
        } else if starts_with(s, "invite/"@) {
            match InvitationId::parse(s.skip("invite/"@.len() as int)) {
                Ok(invitation_id) => Ok(ArenaQueryView::Invitation(invitation_id)),
                Err(_) => Err(InvalidArenaId::InvalidRealmId(InvalidRealmId::Prefix)),
            }
        } else {
            match Self::parse_returning(s) {
                Some(query) => Ok(query),
                None => match ArenaIdView::parse(s) {
                    Ok(arena_id) => Ok(ArenaQueryView::Specific(arena_id, None)),
                    Err(e) => Err(e),
                },
            }
        }
    }
}

impl ArenaQueryView {
    /// Whether the query can be read back: its ids are valid, and the name of its
    /// realm holds no slash.
    pub open spec fn valid(self) -> bool {
        match self {
            ArenaQueryView::Specific(arena_id, returning) => {
                &&& arena_id.valid()
                &&& arena_id.realm_id matches RealmIdView::Named(name) ==> !name.contains('/')
                &&& returning matches Some((player_id, token)) ==> player_id.0.valid()
                    && token.0.valid()
            },
            ArenaQueryView::AnyInstance(realm_id, tier_number) => {
                &&& realm_id.valid()
                &&& tier_number matches Some(t) ==> t.0.valid() && t.0@ <= 26
            },
            ArenaQueryView::NewTemporary => true,
            ArenaQueryView::Invitation(invitation_id) => invitation_id.server_number.0.valid(),
        }
    }

    /// The text of a query reads back as that query.
    pub proof fn lemma_parse_text(self)
        requires
            self.valid(),
        ensures
            Self::parse(self.text()) == Ok::<Self, InvalidArenaId>(self),
    {
        reveal_strlit("temporary");
        reveal_strlit("invite/");
        let s = self.text();
        let slash = seq!['/'];
        match self {
            ArenaQueryView::NewTemporary => {},
            ArenaQueryView::AnyInstance(realm_id, tier_number) => {
                let arena_id = ArenaIdView {
                    realm_id,
                    scene_id: SceneId { tier_number, instance_number: InstanceNumber(0) },
                };
                arena_id.lemma_parse_text();
                assert(s.last() == '?');
                assert(s.drop_last() == arena_id.text());
            },
            ArenaQueryView::Invitation(invitation_id) => {
                invitation_id.lemma_parse_text();
                let code = invitation_id.text();
                assert(s[0] == 'i');
                assert(s.last() == code[5]);
                assert(crate::ids::game::letter_position(code[5]) is Some);
                assert(s.take("invite/"@.len() as int) == "invite/"@);
                assert(s.skip("invite/"@.len() as int) == code);
            },
            ArenaQueryView::Specific(arena_id, returning) => {
                let realm = arena_id.realm_id.text();
                let scene = arena_id.scene_id.text();
                let arena = arena_id.text();
                arena_id.lemma_parse_text();
                arena_id.scene_id.lemma_parse_text();
                arena_id.realm_id.lemma_text_shape();
                assert(arena[0] == realm[0]);
                lemma_last_index_joined(realm, scene, '/');
                match returning {
                    None => {
                        assert(s.last() == scene.last());
                        assert(s != "temporary"@) by {
                            assert(s[0] == realm[0]);
                            crate::text::lemma_last_index_range("temporary"@, '/');
                            crate::text::lemma_last_index_range(s, '/');
                        }
                        assert(!starts_with(s, "invite/"@)) by {
                            if starts_with(s, "invite/"@) {
                                assert(s.take("invite/"@.len() as int)[0] == s[0]);
                            }
                        }
                        // Behind the last slash stands the scene, before it the realm;
                        // what stands before the last slash of the realm holds none,
                        // and so is no arena.
                        let i = last_index(realm, '/')->0;
                        crate::text::lemma_last_index_range(realm.take(i), '/');
                        assert(Self::parse_returning(s) is None);
                    },
                    Some((player_id, token)) => {
                        let player = player_id.text();
                        let token_text = token.text();
                        player_id.lemma_parse_text();
                        token.lemma_parse_text();
                        crate::decimal::lemma_decimal_digits(player_id.0@ as nat);
                        crate::decimal::lemma_decimal_digits(token.0@ as nat);
                        assert(!player.contains('/')) by {
                            if player.contains('/') {
                                let j = choose|j: int| 0 <= j < player.len() && player[j] == '/';
                                assert(crate::decimal::is_digit(player[j]));
                            }
                        }
                        assert(!token_text.contains('/')) by {
                            if token_text.contains('/') {
                                let j = choose|j: int|
                                    0 <= j < token_text.len() && token_text[j] == '/';
                                assert(crate::decimal::is_digit(token_text[j]));
                            }
                        }
                        let rest = arena + slash + player;
                        assert(s == rest + slash + token_text);
                        lemma_last_index_joined(rest, token_text, '/');
                        lemma_last_index_joined(arena, player, '/');
                        assert(s.last() == token_text.last());
                        assert(crate::decimal::is_digit(token_text.last()));
                        assert(s[0] == realm[0]);
                        assert(s != "temporary"@) by {
                            crate::text::lemma_last_index_range("temporary"@, '/');
                            crate::text::lemma_last_index_range(s, '/');
                        }
                        assert(!starts_with(s, "invite/"@)) by {
                            if starts_with(s, "invite/"@) {
                                assert(s.take("invite/"@.len() as int)[0] == s[0]);
                            }
                        }
                    },
                }
            },
        }
    }
}

impl ArenaQuery {
    /// The player who comes back, if the query is of one.
    pub fn player_id(self) -> (r: Option<PlayerId>)
        ensures
            r == match self {
                ArenaQuery::Specific(_, Some((player_id, _))) => Some(player_id),
                _ => None,
            },
    {
        if let ArenaQuery::Specific(_, Some((player_id, _))) = self {
            Some(player_id)
        } else {
            None
        }
    }

    /// The arena asked for, if a given one is.
    pub fn specific(self) -> (r: Option<ArenaId>)
        ensures
            r == match self {
                ArenaQuery::Specific(arena_id, _) => Some(arena_id),
                _ => None,
            },
    {
        if let ArenaQuery::Specific(arena_id, _) = self {
            Some(arena_id)
        } else {
            None
        }
    }

    pub fn is_specific(self) -> (r: bool)
        ensures
            r == (self is Specific),
    {
        self.specific().is_some()
    }

    /// The player who comes back and the token, if the query is of one.
    pub fn player_id_reconnection_token(self) -> (r: Option<(PlayerId, ReconnectionToken)>)
        ensures
            r == match self {
                ArenaQuery::Specific(_, returning) => returning,
                _ => None,
            },
    {
        if let ArenaQuery::Specific(_, returning) = self {
            returning
        } else {
            None
        }
    }

    /// The realm and tier asked for, if any arena of them is.
    pub fn any_instance(self) -> (r: Option<(RealmId, Option<TierNumber>)>)
        ensures
            r == match self {
                ArenaQuery::AnyInstance(realm_id, tier_number) => Some((realm_id, tier_number)),
                _ => None,
            },
    {
        if let ArenaQuery::AnyInstance(realm_id, tier_number) = self {
            Some((realm_id, tier_number))
        } else {
            None
        }
    }

    pub fn is_any_instance(self) -> (r: bool)
        ensures
            r == (self is AnyInstance),
    {
        self.any_instance().is_some()
    }

    /// The invitation, if the query is by one.
    pub fn invitation_id(self) -> (r: Option<InvitationId>)
        ensures
            r == match self {
                ArenaQuery::Invitation(invitation_id) => Some(invitation_id),
                _ => None,
            },
    {
        if let ArenaQuery::Invitation(invitation_id) = self {
            Some(invitation_id)
        } else {
            None
        }
    }

    pub fn is_invitation_id(self) -> (r: bool)
        ensures
            r == (self is Invitation),
    {
        self.invitation_id().is_some()
    }

    pub fn is_new_temporary(self) -> (r: bool)
        ensures
            r == (self is NewTemporary),
    {
        matches!(self, ArenaQuery::NewTemporary)
    }

    /// The realm asked for, where the query names one.
    pub fn realm_id(self) -> (r: Option<RealmId>)
        ensures
            r == match self {
                ArenaQuery::Specific(arena_id, _) => Some(arena_id.realm_id),
                ArenaQuery::AnyInstance(realm_id, _) => Some(realm_id),
                _ => None,
            },
    {
        match self {
            ArenaQuery::Specific(arena_id, _) => Some(arena_id.realm_id),
            ArenaQuery::AnyInstance(realm_id, _) => Some(realm_id),
            _ => None,
        }
    }

    /// Writes the query as text.
    pub fn to_string(&self) -> (r: String)
        ensures
            r@ == self@.text(),
    {
        match *self {
            ArenaQuery::Specific(arena_id, returning) => {
                let mut r = arena_id.to_string();
                match returning {
                    Some((player_id, token)) => {
                        r.push('/');
                        let player = player_id.to_string();
                        r.append(player.as_str());
                        r.push('/');
                        let token = token.to_string();
                        r.append(token.as_str());
                    },
                    None => {},
                }
                r
            },
            ArenaQuery::AnyInstance(realm_id, tier_number) => {
                let arena_id = ArenaId::new(
                    realm_id,
                    SceneId::new(tier_number, InstanceNumber::new(0)),
                );
                let mut r = arena_id.to_string();
                r.push('?');
                r
            },
            ArenaQuery::NewTemporary => String::from_str("temporary"),
            ArenaQuery::Invitation(invitation_id) => {
                let mut r = String::from_str("invite/");
                let code = invitation_id.to_string();
                r.append(code.as_str());
                r
            },
        }
    }

    /// Reads the query of a player who comes back.
    fn returning_from_str(s: &str) -> (r: Option<Self>)
        ensures
            match r {
                Some(query) => ArenaQueryView::parse_returning(s@) == Some(query@),
                None => ArenaQueryView::parse_returning(s@) is None,
            },
    {
        let (rest, token) = match rsplit_once(s, '/') {
            Some(pair) => pair,
            None => {
                return None;
            },
        };
        let token = match ReconnectionToken::from_str(token) {
            Ok(token) => token,
            Err(_) => {
                return None;
            },
        };
        let (rest, player_id) = match rsplit_once(rest, '/') {
            Some(pair) => pair,
            None => {
                return None;
            },
        };
        let player_id = match PlayerId::from_str(player_id) {
            Ok(player_id) => player_id,
            Err(_) => {
                return None;
            },
        };
        match ArenaId::from_str(rest) {
            Ok(arena_id) => Some(ArenaQuery::Specific(arena_id, Some((player_id, token)))),
            Err(_) => None,
        }
    }

    /// Reads a query from text.
    pub fn from_str(s: &str) -> (r: Result<Self, InvalidArenaId>)
        ensures
            match r {
                Ok(query) => ArenaQueryView::parse(s@) == Ok::<ArenaQueryView, InvalidArenaId>(
                    query@,
                ),
                Err(e) => ArenaQueryView::parse(s@) == Err::<ArenaQueryView, InvalidArenaId>(e),
            },
    {
        if same_text(s, "temporary") {
            return Ok(ArenaQuery::NewTemporary);
        }
        if let Some(arena_id) = strip_suffix_char(s, '?') {
            let arena_id = match ArenaId::from_str(arena_id) {
                Ok(arena_id) => arena_id,
                Err(e) => {
                    return Err(e);
                },
            };
            if arena_id.scene_id.instance_number != InstanceNumber::new(0) {
                return Err(InvalidArenaId::InvalidSceneId(InvalidSceneId::InvalidInstanceNumber));
            }
            return Ok(ArenaQuery::AnyInstance(arena_id.realm_id, arena_id.scene_id.tier_number));
        }
        if let Some(invitation_id) = strip_prefix(s, "invite/") {
            return match InvitationId::from_str(invitation_id) {
                Ok(invitation_id) => Ok(ArenaQuery::Invitation(invitation_id)),
                Err(_) => Err(InvalidArenaId::InvalidRealmId(InvalidRealmId::Prefix)),
            };
        }
        match Self::returning_from_str(s) {
            Some(query) => Ok(query),
            None => match ArenaId::from_str(s) {
                Ok(arena_id) => Ok(ArenaQuery::Specific(arena_id, None)),
                Err(e) => Err(e),
            },
        }
    }
}

/// What a server shows to prove that an arena is its own.
#[derive(Clone, Copy, Debug, PartialEq, Eq, Structural, Hash)]
pub struct ArenaToken(pub NonZero32);

impl ArenaToken {
    /// The decimal text of the token.
    pub open spec fn text(self) -> Seq<char> {
        self.0.text()
    }

    /// What a text denotes: an arena token, or the reason why none.
    pub open spec fn parse(s: Seq<char>) -> Result<ArenaToken, NumberError> {
        match NonZero32::parse(s) {
            Ok(n) => Ok(ArenaToken(n)),
            Err(e) => Err(e),
        }
    }

    /// Writes the token in decimal.
    pub fn to_string(&self) -> (r: String)
        ensures
            r@ == self.text(),
    {
        self.0.to_string()
    }

    /// Reads an arena token.
    pub fn from_str(s: &str) -> (r: Result<Self, NumberError>)
        ensures
            r == Self::parse(s@),
            r matches Ok(x) ==> x.0.valid(),
    {
        match NonZero32::from_str(s) {
            Ok(n) => Ok(ArenaToken(n)),
            Err(e) => Err(e),
        }
    }
}

} // verus!
