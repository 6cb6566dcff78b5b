use crate::bounded::{text28, text28_as_str, text28_eq, text28_from};
use crate::claims::subsets::ClaimScope;
use crate::claims::values::ClaimAggregation;
use crate::ids::game::{GameId, InvalidGameId};
use crate::ids::realm::{InvalidRealmId, RealmId, RealmIdView};
use crate::text::{
    first_index, last_index, lemma_count_zero, lemma_last_index_joined, lemma_nth_index_joined,
    nth_index, rsplit_once, split_around, split_once, split_once_nth, VariantNotFound,
};
use arrayvec::ArrayString;
use vstd::prelude::*;
use vstd::string::StringExecFns;
use crate::decimal::{decimal, lemma_decimal_digits, push_decimal};
use crate::ids::tokens::SkuId;
use vstd::utf8::{encode_utf8, is_ascii_chars, is_ascii_chars_encode_utf8};

verus! {

/// The name of a kind of claim.
#[derive(Clone, Copy, Debug, PartialEq, Eq, Hash)]
pub struct ClaimName(ArrayString<28>);

/// A text takes more than 28 bytes, too many for a claim name.
#[derive(Clone, Copy, Debug, PartialEq, Eq, Structural)]
pub struct ClaimNameError;

impl View for ClaimName {
    type V = Seq<char>;

    closed spec fn view(&self) -> Seq<char> {
        text28(self.0)
    }
}

impl ClaimName {
    /// Whether a text fits in a claim name.
    pub open spec fn fits(s: Seq<char>) -> bool {
        encode_utf8(s).len() <= 28
    }

    /// The claim name `s`.
    pub fn new(s: &str) -> (r: Self)
        requires
            Self::fits(s@),
        ensures
            r@ == s@,
    {
        match text28_from(s) {
            Ok(a) => ClaimName(a),
            Err(_) => vstd::pervasive::unreached(),
        }
    }

    /// What a text denotes: the claim name of that text, where it fits.
    pub open spec fn parse(s: Seq<char>) -> Result<Seq<char>, ClaimNameError> {
        if Self::fits(s) {
            Ok(s)
        } else {
            Err(ClaimNameError)
        }
    }

    /// Reads a claim name.
    pub fn from_str(s: &str) -> (r: Result<Self, ClaimNameError>)
        ensures
            match r {
                Ok(name) => Self::parse(s@) == Ok::<Seq<char>, ClaimNameError>(name@),
                Err(e) => Self::parse(s@) == Err::<Seq<char>, ClaimNameError>(e),
            },
    {
        match text28_from(s) {
            Ok(a) => Ok(ClaimName(a)),
            Err(_) => Err(ClaimNameError),
        }
    }

    /// The name as text.
    pub fn as_str(&self) -> (r: &str)
        ensures
            r@ == self@,
            Self::fits(self@),
    {
        text28_as_str(&self.0)
    }

    /// Writes the name.
    pub fn to_string(&self) -> (r: String)
        ensures
            r@ == self@,
    {
        String::from_str(text28_as_str(&self.0))
    }

    /// Tells whether two names are the same.
    pub fn same(&self, other: &Self) -> (r: bool)
        ensures
            r == (self@ == other@),
    {
        text28_eq(&self.0, &other.0)
    }
}

/// What addresses a claim of a player: its name, and how its values are reconciled.
#[derive(Clone, Copy, Debug, PartialEq, Eq, Hash)]
pub struct ClaimKey {
    pub name: ClaimName,
    pub aggregation: ClaimAggregation,
}

/// A claim key with its name as plain text.
pub ghost struct ClaimKeyView {
    pub name: Seq<char>,
    pub aggregation: ClaimAggregation,
}

/// Why a text is no claim key.
#[derive(Clone, Copy, Debug, PartialEq, Eq, Structural)]
pub enum ClaimKeyError {
    Name(ClaimNameError),
    Aggregation(VariantNotFound),
    MissingSlash,
}

impl View for ClaimKey {
    type V = ClaimKeyView;

    open spec fn view(&self) -> ClaimKeyView {
        ClaimKeyView { name: self.name@, aggregation: self.aggregation }
    }
}

impl ClaimKeyView {
    /// The text of a key: name, slash, aggregation.
    pub open spec fn text(self) -> Seq<char> {
        self.name + seq!['/'] + self.aggregation.text()
    }

    /// Whether the name fits in a claim name.
    pub open spec fn valid(self) -> bool {
        ClaimName::fits(self.name)
    }

    /// What a text denotes: a claim key, or the reason why none. The text is parted
    /// at its last slash.
    pub open spec fn parse(s: Seq<char>) -> Result<ClaimKeyView, ClaimKeyError> {
        match last_index(s, '/') {
            None => Err(ClaimKeyError::MissingSlash),
            Some(i) => match ClaimName::parse(split_around(s, i).0) {
                Err(e) => Err(ClaimKeyError::Name(e)),
                Ok(name) => match ClaimAggregation::parse(split_around(s, i).1) {
                    Err(e) => Err(ClaimKeyError::Aggregation(e)),
                    Ok(aggregation) => Ok(ClaimKeyView { name, aggregation }),
                },
            },
        }
    }

    /// The text of a key reads back as that key.
    pub proof fn lemma_parse_text(self)
        requires
            self.valid(),
        ensures
            Self::parse(self.text()) == Ok::<Self, ClaimKeyError>(self),
    {
        self.aggregation.lemma_parse_text();
        lemma_last_index_joined(self.name, self.aggregation.text(), '/');
    }
}

impl ClaimKey {
    /// Tells whether two keys are the same.
    pub fn same(&self, other: &Self) -> (r: bool)
        ensures
            r == (self@ == other@),
    {
        self.name.same(&other.name) && self.aggregation == other.aggregation
    }

    /// Writes the key as text.
    pub fn to_string(&self) -> (r: String)
        ensures
            r@ == self@.text(),
    {
        let mut r = self.name.to_string();
        r.push('/');
        let aggregation = self.aggregation.to_string();
        r.append(aggregation.as_str());
        r
    }

    /// Reads a key from text.
    pub fn from_str(s: &str) -> (r: Result<Self, ClaimKeyError>)
        ensures
            match r {
                Ok(key) => ClaimKeyView::parse(s@) == Ok::<ClaimKeyView, ClaimKeyError>(key@)
                    && key@.valid(),
                Err(e) => ClaimKeyView::parse(s@) == Err::<ClaimKeyView, ClaimKeyError>(e),
            },
    {
        let (name, aggregation) = match rsplit_once(s, '/') {
            Some(pair) => pair,
            None => {
                return Err(ClaimKeyError::MissingSlash);
            },
        };
        let name = match ClaimName::from_str(name) {
            Ok(name) => name,
            Err(e) => {
                return Err(ClaimKeyError::Name(e));
            },
        };
        match ClaimAggregation::from_str(aggregation) {
            Ok(aggregation) => Ok(ClaimKey { name, aggregation }),
            Err(e) => Err(ClaimKeyError::Aggregation(e)),
        }
    }
}

/// What addresses a claim of a player within one game.
#[derive(Clone, Copy, Debug, PartialEq, Eq, Hash)]
pub struct GameClaimKey {
    pub game_id: GameId,
    pub key: ClaimKey,
}

/// A game claim key with its names as plain text.
pub ghost struct GameClaimKeyView {
    pub game_id: Seq<char>,
    pub key: ClaimKeyView,
}

/// Why a text is no game claim key.
#[derive(Clone, Copy, Debug, PartialEq, Eq, Structural)]
pub enum GameClaimKeyError {
    GameId(InvalidGameId),
    Key(ClaimKeyError),
    MissingSlash,
}

impl View for GameClaimKey {
    type V = GameClaimKeyView;

    open spec fn view(&self) -> GameClaimKeyView {
        GameClaimKeyView { game_id: self.game_id@, key: self.key@ }
    }
}

impl GameClaimKeyView {
    /// The text of a key: game, slash, claim key.
    pub open spec fn text(self) -> Seq<char> {
        self.game_id + seq!['/'] + self.key.text()
    }

    /// Whether the key can be read back: the name of the game fits and holds no
    /// slash, and the claim key is valid.
    pub open spec fn valid(self) -> bool {
        &&& encode_utf8(self.game_id).len() <= 12
        &&& !self.game_id.contains('/')
        &&& self.key.valid()
    }

    /// What a text denotes: a game claim key, or the reason why none. The text is
    /// parted at its first slash.
    pub open spec fn parse(s: Seq<char>) -> Result<GameClaimKeyView, GameClaimKeyError> {
        match first_index(s, '/') {
            None => Err(GameClaimKeyError::MissingSlash),
            Some(i) => match GameId::parse(split_around(s, i).0) {
                Err(e) => Err(GameClaimKeyError::GameId(e)),
                Ok(game_id) => match ClaimKeyView::parse(split_around(s, i).1) {
                    Err(e) => Err(GameClaimKeyError::Key(e)),
                    Ok(key) => Ok(GameClaimKeyView { game_id, key }),
                },
            },
        }
    }

    /// The text of a key reads back as that key.
    pub proof fn lemma_parse_text(self)
        requires
            self.valid(),
        ensures
            Self::parse(self.text()) == Ok::<Self, GameClaimKeyError>(self),
    {
        self.key.lemma_parse_text();
        lemma_count_zero(self.game_id, '/');
        lemma_nth_index_joined(self.game_id, self.key.text(), '/', 0);
    }
}

impl GameClaimKey {
    /// Tells whether two keys are the same.
    pub fn same(&self, other: &Self) -> (r: bool)
        ensures
            r == (self@ == other@),
    {
        self.game_id.same(&other.game_id) && self.key.same(&other.key)
    }

    /// Writes the key as text.
    pub fn to_string(&self) -> (r: String)
        ensures
            r@ == self@.text(),
    {
        let mut r = self.game_id.to_string();
        r.push('/');
        let key = self.key.to_string();
        r.append(key.as_str());
        r
    }

    /// Reads a key from text.
    pub fn from_str(s: &str) -> (r: Result<Self, GameClaimKeyError>)
        ensures
            match r {
                Ok(key) => GameClaimKeyView::parse(s@) == Ok::<
                    GameClaimKeyView,
                    GameClaimKeyError,
                >(key@),
                Err(e) => GameClaimKeyView::parse(s@) == Err::<
                    GameClaimKeyView,
                    GameClaimKeyError,
                >(e),
            },
    {
        let (game_id, key) = match split_once(s, '/') {
            Some(pair) => pair,
            None => {
                return Err(GameClaimKeyError::MissingSlash);
            },
        };
        let game_id = match GameId::from_str(game_id) {
            Ok(game_id) => game_id,
            Err(e) => {
                return Err(GameClaimKeyError::GameId(e));
            },
        };
        match ClaimKey::from_str(key) {
            Ok(key) => Ok(GameClaimKey { game_id, key }),
            Err(e) => Err(GameClaimKeyError::Key(e)),
        }
    }
}

/// What addresses a claim of a player within one realm of one game.
#[derive(Clone, Copy, Debug, PartialEq, Eq, Hash)]
pub struct RealmClaimKey {
    pub realm_id: RealmId,
    pub key: GameClaimKey,
}

/// A realm claim key with its names as plain text.
pub ghost struct RealmClaimKeyView {
    pub realm_id: RealmIdView,
    pub key: GameClaimKeyView,
}

/// Why a text is no realm claim key.
#[derive(Clone, Copy, Debug, PartialEq, Eq, Structural)]
pub enum RealmClaimKeyError {
    RealmId(InvalidRealmId),
    Key(GameClaimKeyError),
    MissingSlash,
}

impl View for RealmClaimKey {
    type V = RealmClaimKeyView;

    open spec fn view(&self) -> RealmClaimKeyView {
        RealmClaimKeyView { realm_id: self.realm_id@, key: self.key@ }
    }
}

impl RealmClaimKeyView {
    /// The text of a key: realm, slash, game claim key.
    pub open spec fn text(self) -> Seq<char> {
        self.realm_id.text() + seq!['/'] + self.key.text()
    }

    /// Whether the key can be read back: the realm is valid and its name holds no
    /// slash, and the game claim key is valid.
    pub open spec fn valid(self) -> bool {
        &&& self.realm_id.valid()
        &&& self.realm_id matches RealmIdView::Named(name) ==> !name.contains('/')
        &&& self.key.valid()
    }

    /// What a text denotes: a realm claim key, or the reason why none. The text of
    /// a realm holds one slash, so the text is parted at its second slash.
    pub open spec fn parse(s: Seq<char>) -> Result<RealmClaimKeyView, RealmClaimKeyError> {
        match nth_index(s, '/', 1) {
            None => Err(RealmClaimKeyError::MissingSlash),
            Some(i) => match RealmIdView::parse(split_around(s, i).0) {
                Err(e) => Err(RealmClaimKeyError::RealmId(e)),
                Ok(realm_id) => match GameClaimKeyView::parse(split_around(s, i).1) {
                    Err(e) => Err(RealmClaimKeyError::Key(e)),
                    Ok(key) => Ok(RealmClaimKeyView { realm_id, key }),
                },
            },
        }
    }

    /// The text of a key reads back as that key.
    pub proof fn lemma_parse_text(self)
        requires
            self.valid(),
        ensures
            Self::parse(self.text()) == Ok::<Self, RealmClaimKeyError>(self),
    {
        self.key.lemma_parse_text();
        self.realm_id.lemma_parse_text();
        self.realm_id.lemma_text_one_slash();
        lemma_nth_index_joined(self.realm_id.text(), self.key.text(), '/', 1);
    }
}

impl RealmClaimKey {
    /// Tells whether two keys are the same.
    pub fn same(&self, other: &Self) -> (r: bool)
        ensures
            r == (self@ == other@),
    {
        self.realm_id.same(&other.realm_id) && self.key.same(&other.key)
    }

    /// Writes the key as text.
    pub fn to_string(&self) -> (r: String)
        ensures
            r@ == self@.text(),
    {
        let mut r = self.realm_id.to_string();
        r.push('/');
        let key = self.key.to_string();
        r.append(key.as_str());
        r
    }

    /// Reads a key from text.
    pub fn from_str(s: &str) -> (r: Result<Self, RealmClaimKeyError>)
        ensures
            match r {
                Ok(key) => RealmClaimKeyView::parse(s@) == Ok::<
                    RealmClaimKeyView,
                    RealmClaimKeyError,
                >(key@),
                Err(e) => RealmClaimKeyView::parse(s@) == Err::<
                    RealmClaimKeyView,
                    RealmClaimKeyError,
                >(e),
            },
    {
        let (realm_id, key) = match split_once_nth(s, '/', 1) {
            Some(pair) => pair,
            None => {
                return Err(RealmClaimKeyError::MissingSlash);
            },
        };
        let realm_id = match RealmId::from_str(realm_id) {
            Ok(realm_id) => realm_id,
            Err(e) => {
                return Err(RealmClaimKeyError::RealmId(e));
            },
        };
        match GameClaimKey::from_str(key) {
            Ok(key) => Ok(RealmClaimKey { realm_id, key }),
            Err(e) => Err(RealmClaimKeyError::Key(e)),
        }
    }
}

/// A claim key tagged with its scope; which game and realm it is about is known
/// from where it is used.
#[derive(Clone, Copy, Debug, PartialEq, Eq, Hash)]
pub struct ScopeClaimKey {
    pub scope: ClaimScope,
    pub key: ClaimKey,
}

/// A scope claim key with its name as plain text.
pub ghost struct ScopeClaimKeyView {
    pub scope: ClaimScope,
    pub key: ClaimKeyView,
}

/// Why a text is no scope claim key.
#[derive(Clone, Copy, Debug, PartialEq, Eq, Structural)]
pub enum ScopeClaimKeyError {
    Scope(VariantNotFound),
    Key(ClaimKeyError),
    MissingSlash,
}

impl View for ScopeClaimKey {
    type V = ScopeClaimKeyView;

    open spec fn view(&self) -> ScopeClaimKeyView {
        ScopeClaimKeyView { scope: self.scope, key: self.key@ }
    }
}

impl ScopeClaimKeyView {
    /// The text of a key: scope, slash, claim key.
    pub open spec fn text(self) -> Seq<char> {
        self.scope.text() + seq!['/'] + self.key.text()
    }

    /// Whether the claim key is valid.
    pub open spec fn valid(self) -> bool {
        self.key.valid()
    }

    /// What a text denotes: a scope claim key, or the reason why none. The text is
    /// parted at its first slash.
    pub open spec fn parse(s: Seq<char>) -> Result<ScopeClaimKeyView, ScopeClaimKeyError> {
        match first_index(s, '/') {
            None => Err(ScopeClaimKeyError::MissingSlash),
            Some(i) => match ClaimScope::parse(split_around(s, i).0) {
                Err(e) => Err(ScopeClaimKeyError::Scope(e)),
                Ok(scope) => match ClaimKeyView::parse(split_around(s, i).1) {
                    Err(e) => Err(ScopeClaimKeyError::Key(e)),
                    Ok(key) => Ok(ScopeClaimKeyView { scope, key }),
                },
            },
        }
    }

    /// The text of a key reads back as that key.
    pub proof fn lemma_parse_text(self)
        requires
            self.valid(),
        ensures
            Self::parse(self.text()) == Ok::<Self, ScopeClaimKeyError>(self),
    {
        self.key.lemma_parse_text();
        self.scope.lemma_parse_text();
        lemma_count_zero(self.scope.text(), '/');
        lemma_nth_index_joined(self.scope.text(), self.key.text(), '/', 0);
    }
}

impl ScopeClaimKey {
    /// Tells whether two keys are the same.
    pub fn same(&self, other: &Self) -> (r: bool)
        ensures
            r == (self@ == other@),
    {
        self.scope == other.scope && self.key.same(&other.key)
    }

    /// Writes the key as text.
    pub fn to_string(&self) -> (r: String)
        ensures
            r@ == self@.text(),
    {
        let mut r = self.scope.to_string();
        r.push('/');
        let key = self.key.to_string();
        r.append(key.as_str());
        r
    }

    /// Reads a key from text.
    pub fn from_str(s: &str) -> (r: Result<Self, ScopeClaimKeyError>)
        ensures
            match r {
                Ok(key) => ScopeClaimKeyView::parse(s@) == Ok::<
                    ScopeClaimKeyView,
                    ScopeClaimKeyError,
                >(key@),
                Err(e) => ScopeClaimKeyView::parse(s@) == Err::<
                    ScopeClaimKeyView,
                    ScopeClaimKeyError,
                >(e),
            },
    {
        let (scope, key) = match split_once(s, '/') {
            Some(pair) => pair,
            None => {
                return Err(ScopeClaimKeyError::MissingSlash);
            },
        };
        let scope = match ClaimScope::from_str(scope) {
            Ok(scope) => scope,
            Err(e) => {
                return Err(ScopeClaimKeyError::Scope(e));
            },
        };
        match ClaimKey::from_str(key) {
            Ok(key) => Ok(ScopeClaimKey { scope, key }),
            Err(e) => Err(ScopeClaimKeyError::Key(e)),
        }
    }
}

impl ScopeClaimKey {
    /// The key of the given scope, name and aggregation.
    fn well_known(scope: ClaimScope, name: &str, aggregation: ClaimAggregation) -> (r: Self)
        requires
            is_ascii_chars(name@),
            name@.len() <= 28,
        ensures
            r@ == (ScopeClaimKeyView { scope, key: ClaimKeyView { name: name@, aggregation } }),
            r@.valid(),
    {
        proof {
            is_ascii_chars_encode_utf8(name@);
        }
        ScopeClaimKey { scope, key: ClaimKey { name: ClaimName::new(name), aggregation } }
    }

    /// The best score of a player in a game.
    pub fn high_score() -> (r: Self)
        ensures
            r@ == (ScopeClaimKeyView {
                scope: ClaimScope::Game,
                key: ClaimKeyView { name: "high_score"@, aggregation: ClaimAggregation::Max },
            }),
            r@.valid(),
    {
        proof {
            reveal_strlit("high_score");
        }
        Self::well_known(ClaimScope::Game, "high_score", ClaimAggregation::Max)
    }

    /// The rank of a player in a game.
    pub fn rank() -> (r: Self)
        ensures
            r@ == (ScopeClaimKeyView {
                scope: ClaimScope::Game,
                key: ClaimKeyView { name: "rank"@, aggregation: ClaimAggregation::New },
            }),
            r@.valid(),
    {
        proof {
            reveal_strlit("rank");
        }
        Self::well_known(ClaimScope::Game, "rank", ClaimAggregation::New)
    }

    /// Whether a player wants announcements: 0 opts out; 1, or no claim, opts in.
    pub fn announcement_preference() -> (r: Self)
        ensures
            r@ == (ScopeClaimKeyView {
                scope: ClaimScope::Global,
                key: ClaimKeyView { name: "announcement_preference"@, aggregation: ClaimAggregation::New },
            }),
            r@.valid(),
    {
        proof {
            reveal_strlit("announcement_preference");
        }
        Self::well_known(ClaimScope::Global, "announcement_preference", ClaimAggregation::New)
    }

    /// For how many calendar days in a row a player has played; expires when the streak would end.
    pub fn streak() -> (r: Self)
        ensures
            r@ == (ScopeClaimKeyView {
                scope: ClaimScope::Global,
                key: ClaimKeyView { name: "streak"@, aggregation: ClaimAggregation::Max },
            }),
            r@.valid(),
    {
        proof {
            reveal_strlit("streak");
        }
        Self::well_known(ClaimScope::Global, "streak", ClaimAggregation::Max)
    }

    /// On how many calendar days a player has played a game.
    pub fn days() -> (r: Self)
        ensures
            r@ == (ScopeClaimKeyView {
                scope: ClaimScope::Game,
                key: ClaimKeyView { name: "days"@, aggregation: ClaimAggregation::Max },
            }),
            r@.valid(),
    {
        proof {
            reveal_strlit("days");
        }
        Self::well_known(ClaimScope::Game, "days", ClaimAggregation::Max)
    }

    /// How often a player has killed a player or bot.
    pub fn kills() -> (r: Self)
        ensures
            r@ == (ScopeClaimKeyView {
                scope: ClaimScope::Game,
                key: ClaimKeyView { name: "kills"@, aggregation: ClaimAggregation::Max },
            }),
            r@.valid(),
    {
        proof {
            reveal_strlit("kills");
        }
        Self::well_known(ClaimScope::Game, "kills", ClaimAggregation::Max)
    }

    /// How often a player has killed a human player with a much higher score.
    pub fn superior_kills() -> (r: Self)
        ensures
            r@ == (ScopeClaimKeyView {
                scope: ClaimScope::Game,
                key: ClaimKeyView { name: "superior_kills"@, aggregation: ClaimAggregation::Max },
            }),
            r@.valid(),
    {
        proof {
            reveal_strlit("superior_kills");
        }
        Self::well_known(ClaimScope::Game, "superior_kills", ClaimAggregation::Max)
    }

    /// How often a player has killed a human player with a much lower score.
    pub fn inferior_kills() -> (r: Self)
        ensures
            r@ == (ScopeClaimKeyView {
                scope: ClaimScope::Game,
                key: ClaimKeyView { name: "inferior_kills"@, aggregation: ClaimAggregation::Max },
            }),
            r@.valid(),
    {
        proof {
            reveal_strlit("inferior_kills");
        }
        Self::well_known(ClaimScope::Game, "inferior_kills", ClaimAggregation::Max)
    }

    /// How often a player has won over a player or bot.
    pub fn victories() -> (r: Self)
        ensures
            r@ == (ScopeClaimKeyView {
                scope: ClaimScope::Game,
                key: ClaimKeyView { name: "victories"@, aggregation: ClaimAggregation::Max },
            }),
            r@.valid(),
    {
        proof {
            reveal_strlit("victories");
        }
        Self::well_known(ClaimScope::Game, "victories", ClaimAggregation::Max)
    }

    /// How often a player has won over a human player with a much higher score.
    pub fn superior_victories() -> (r: Self)
        ensures
            r@ == (ScopeClaimKeyView {
                scope: ClaimScope::Game,
                key: ClaimKeyView { name: "superior_victories"@, aggregation: ClaimAggregation::Max },
            }),
            r@.valid(),
    {
        proof {
            reveal_strlit("superior_victories");
        }
        Self::well_known(ClaimScope::Game, "superior_victories", ClaimAggregation::Max)
    }

    /// How often a player has won over a human player with a much lower score.
    pub fn inferior_victories() -> (r: Self)
        ensures
            r@ == (ScopeClaimKeyView {
                scope: ClaimScope::Game,
                key: ClaimKeyView { name: "inferior_victories"@, aggregation: ClaimAggregation::Max },
            }),
            r@.valid(),
    {
        proof {
            reveal_strlit("inferior_victories");
        }
        Self::well_known(ClaimScope::Game, "inferior_victories", ClaimAggregation::Max)
    }

    /// The name of the claim that a product is owned: `product_` and the number
    /// of the product.
    pub open spec fn product_name(sku_id: SkuId) -> Seq<char> {
        "product_"@ + decimal(sku_id.0@ as nat)
    }

    /// How many of a product a player owns, at the given scope.
    pub fn product(scope: ClaimScope, sku_id: SkuId) -> (r: Self)
        ensures
            r@ == (ScopeClaimKeyView {
                scope,
                key: ClaimKeyView {
                    name: Self::product_name(sku_id),
                    aggregation: ClaimAggregation::Max,
                },
            }),
            r@.valid(),
    {
        let mut name = String::from_str("product_");
        let n = sku_id.0.get();
        push_decimal(&mut name, n);
        proof {
            reveal_strlit("product_");
            lemma_decimal_digits(n as nat);
            assert(crate::decimal::pow10(20) == 100000000000000000000) by {
                reveal_with_fuel(crate::decimal::pow10, 21);
            }
            crate::decimal::lemma_decimal_len(n as nat, 20);
            assert forall|i: int| 0 <= i < name@.len() implies '\0' <= #[trigger] name@[i]
                <= '\u{7f}' by {
                if i >= 8 {
                    assert(name@[i] == decimal(n as nat)[i - 8]);
                    assert(crate::decimal::is_digit(decimal(n as nat)[i - 8]));
                }
            }
        }
        Self::well_known(scope, name.as_str(), ClaimAggregation::Max)
    }
}

} // verus!
