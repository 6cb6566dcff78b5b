use crate::claims::keys::{
    ClaimKey, ClaimKeyView, GameClaimKey, GameClaimKeyView, RealmClaimKey, RealmClaimKeyView,
    ScopeClaimKey, ScopeClaimKeyView,
};
use crate::claims::map::{unexpired, ClaimMap, ClaimMapKey};
use crate::claims::values::{ClaimAggregation, ClaimValue};
use crate::ids::game::GameId;
use crate::ids::realm::{RealmId, RealmIdView};
use crate::text::{same_text, VariantNotFound};
use crate::time::NonZeroUnixMillis;
use vstd::prelude::*;
use vstd::string::StringExecFns;

verus! {

/// How widely a claim applies.
#[derive(Clone, Copy, Debug, PartialEq, Eq, Structural, Hash)]
pub enum ClaimScope {
    /// To a player in all games and realms.
    Global,
    /// To a player in one game, in all its realms.
    Game,
    /// To a player in one realm of one game.
    Realm,
}

impl ClaimScope {
    /// The name of the scope.
    pub open spec fn text(self) -> Seq<char> {
        match self {
            ClaimScope::Global => "Global"@,
            ClaimScope::Game => "Game"@,
            ClaimScope::Realm => "Realm"@,
        }
    }

    /// The scope that a text names.
    pub open spec fn parse(s: Seq<char>) -> Result<ClaimScope, VariantNotFound> {
        if s == "Global"@ {
            Ok(ClaimScope::Global)
        } else if s == "Game"@ {
            Ok(ClaimScope::Game)
        } else if s == "Realm"@ {
            Ok(ClaimScope::Realm)
        } else {
            Err(VariantNotFound)
        }
    }

    /// Writes the name of the scope.
    pub fn to_string(&self) -> (r: String)
        ensures
            r@ == self.text(),
    {
        match self {
            ClaimScope::Global => String::from_str("Global"),
            ClaimScope::Game => String::from_str("Game"),
            ClaimScope::Realm => String::from_str("Realm"),
        }
    }

    /// Reads the name of a scope.
    pub fn from_str(s: &str) -> (r: Result<Self, VariantNotFound>)
        ensures
            r == Self::parse(s@),
    {
        if same_text(s, "Global") {
            Ok(ClaimScope::Global)
        } else if same_text(s, "Game") {
            Ok(ClaimScope::Game)
        } else if same_text(s, "Realm") {
            Ok(ClaimScope::Realm)
        } else {
            Err(VariantNotFound)
        }
    }

    /// The name of a scope reads back as that scope, and holds no slash.
    pub proof fn lemma_parse_text(self)
        ensures
            Self::parse(self.text()) == Ok::<Self, VariantNotFound>(self),
            !self.text().contains('/'),
    {
        reveal_strlit("Global");
        reveal_strlit("Game");
        reveal_strlit("Realm");
        assert("Global"@.len() != "Game"@.len());
        assert("Global"@.len() != "Realm"@.len());
        assert("Game"@.len() != "Realm"@.len());
    }
}

/// Whether `t` is the earliest update time among the claims of `m`.
pub open spec fn is_earliest_update<K>(m: Map<K, ClaimValue>, t: int) -> bool {
    &&& exists|k: K| m.contains_key(k) && (#[trigger] m[k]).date_updated@ == t
    &&& forall|k: K| m.contains_key(k) ==> t <= (#[trigger] m[k]).date_updated@
}

/// Whether `t` is the latest update time among the claims of `m`.
pub open spec fn is_latest_update<K>(m: Map<K, ClaimValue>, t: int) -> bool {
    &&& exists|k: K| m.contains_key(k) && (#[trigger] m[k]).date_updated@ == t
    &&& forall|k: K| m.contains_key(k) ==> t >= (#[trigger] m[k]).date_updated@
}

/// The earliest update time among the claims of `m`; the latest time there is
/// where `m` has no claim.
pub open spec fn earliest_update<K>(m: Map<K, ClaimValue>) -> int {
    if exists|k: K| m.contains_key(k) {
        choose|t: int| is_earliest_update(m, t)
    } else {
        u64::MAX as int
    }
}

/// The latest update time among the claims of `m`; the earliest time there is
/// where `m` has no claim.
pub open spec fn latest_update<K>(m: Map<K, ClaimValue>) -> int {
    if exists|k: K| m.contains_key(k) {
        choose|t: int| is_latest_update(m, t)
    } else {
        1
    }
}

/// There is one earliest update time at most.
pub proof fn lemma_earliest_update<K>(m: Map<K, ClaimValue>, t: int)
    requires
        is_earliest_update(m, t),
    ensures
        earliest_update(m) == t,
{
    let k = choose|k: K| m.contains_key(k) && (#[trigger] m[k]).date_updated@ == t;
    assert(m.contains_key(k));
    let u = choose|u: int| is_earliest_update(m, u);
    assert(is_earliest_update(m, u));
    let j = choose|j: K| m.contains_key(j) && (#[trigger] m[j]).date_updated@ == u;
    assert(u <= m[k].date_updated@);
    assert(t <= m[j].date_updated@);
}

/// There is one latest update time at most.
pub proof fn lemma_latest_update<K>(m: Map<K, ClaimValue>, t: int)
    requires
        is_latest_update(m, t),
    ensures
        latest_update(m) == t,
{
    let k = choose|k: K| m.contains_key(k) && (#[trigger] m[k]).date_updated@ == t;
    assert(m.contains_key(k));
    let u = choose|u: int| is_latest_update(m, u);
    assert(is_latest_update(m, u));
    let j = choose|j: K| m.contains_key(j) && (#[trigger] m[j]).date_updated@ == u;
    assert(u >= m[k].date_updated@);
    assert(t >= m[j].date_updated@);
}

/// The earliest update time among the claims of a map, as `earliest_update` says.
pub fn first_updated_of<K: ClaimMapKey>(claims: &ClaimMap<K>) -> (r: NonZeroUnixMillis)
    ensures
        r@ == earliest_update(claims@),
{
    let n = claims.len();
    let mut best = NonZeroUnixMillis::max_value();
    let mut i: usize = 0;
    while i < n
        invariant
            i <= n,
            n == claims.order().len(),
            forall|k: K::V| claims@.contains_key(k) <==> claims.order().contains(k),
            forall|j: int|
                0 <= j < i ==> best@ <= claims@[#[trigger] claims.order()[j]].date_updated@,
            i == 0 ==> best@ == u64::MAX,
            i > 0 ==> exists|j: int|
                0 <= j < i && claims@[#[trigger] claims.order()[j]].date_updated@ == best@,
        decreases n - i,
    {
        let (key, value) = claims.entry(i);
        let ghost previous = best;
        if value.date_updated.get() < best.get() {
            best = value.date_updated;
        }
        proof {
            if best == previous && i > 0 {
                let j = choose|j: int|
                    0 <= j < i && claims@[#[trigger] claims.order()[j]].date_updated@
                        == previous@;
                assert(claims@[claims.order()[j]].date_updated@ == best@);
            } else {
                assert(claims@[claims.order()[i as int]].date_updated@ == best@);
            }
        }
        i += 1;
    }
    proof {
        let m = claims@;
        if n == 0 {
            assert forall|k: K::V| !m.contains_key(k) by {
                assert(!claims.order().contains(k));
            }
        } else {
            let j = choose|j: int|
                0 <= j < n && claims@[#[trigger] claims.order()[j]].date_updated@ == best@;
            assert(claims.order().contains(claims.order()[j]));
            assert(m.contains_key(claims.order()[j]));
            assert forall|k: K::V| m.contains_key(k) implies best@ <= (#[trigger] m[k]).date_updated@ by {
                assert(claims.order().contains(k));
                let p = choose|p: int| 0 <= p < claims.order().len() && claims.order()[p] == k;
                assert(best@ <= claims@[claims.order()[p]].date_updated@);
            }
            lemma_earliest_update(m, best@);
        }
    }
    best
}

/// The latest update time among the claims of a map, as `latest_update` says.
pub fn last_updated_of<K: ClaimMapKey>(claims: &ClaimMap<K>) -> (r: NonZeroUnixMillis)
    ensures
        r@ == latest_update(claims@),
{
    let n = claims.len();
    let mut best = NonZeroUnixMillis::min_value();
    let mut i: usize = 0;
    while i < n
        invariant
            i <= n,
            n == claims.order().len(),
            forall|k: K::V| claims@.contains_key(k) <==> claims.order().contains(k),
            forall|j: int|
                0 <= j < i ==> best@ >= claims@[#[trigger] claims.order()[j]].date_updated@,
            i == 0 ==> best@ == 1,
            i > 0 ==> exists|j: int|
                0 <= j < i && claims@[#[trigger] claims.order()[j]].date_updated@ == best@,
        decreases n - i,
    {
        let (key, value) = claims.entry(i);
        let ghost previous = best;
        if value.date_updated.get() > best.get() {
            best = value.date_updated;
        }
        proof {
            if best == previous && i > 0 {
                let j = choose|j: int|
                    0 <= j < i && claims@[#[trigger] claims.order()[j]].date_updated@
                        == previous@;
                assert(claims@[claims.order()[j]].date_updated@ == best@);
            } else {
                assert(claims@[claims.order()[i as int]].date_updated@ == best@);
            }
        }
        i += 1;
    }
    proof {
        let m = claims@;
        if n == 0 {
            assert forall|k: K::V| !m.contains_key(k) by {
                assert(!claims.order().contains(k));
            }
        } else {
            let j = choose|j: int|
                0 <= j < n && claims@[#[trigger] claims.order()[j]].date_updated@ == best@;
            assert(claims.order().contains(claims.order()[j]));
            assert(m.contains_key(claims.order()[j]));
            assert forall|k: K::V| m.contains_key(k) implies best@ >= (#[trigger] m[k]).date_updated@ by {
                assert(claims.order().contains(k));
                let p = choose|p: int| 0 <= p < claims.order().len() && claims.order()[p] == k;
                assert(best@ >= claims@[claims.order()[p]].date_updated@);
            }
            lemma_latest_update(m, best@);
        }
    }
    best
}

/// The claims that one side of an exchange knows of, with the time at which that
/// side last brought all its claims in line.
#[derive(Clone, Debug)]
pub struct ClaimSubset {
    pub claims: ClaimMap<ScopeClaimKey>,
    /// Chosen by the game server: when it last sent its claims.
    pub date_synchronized: NonZeroUnixMillis,
}

/// A subset as a mapping.
#[verifier::ext_equal]
pub ghost struct ClaimSubsetView {
    pub claims: Map<ScopeClaimKeyView, ClaimValue>,
    pub date_synchronized: NonZeroUnixMillis,
}

impl View for ClaimSubset {
    type V = ClaimSubsetView;

    open spec fn view(&self) -> ClaimSubsetView {
        ClaimSubsetView { claims: self.claims@, date_synchronized: self.date_synchronized }
    }
}

impl Default for ClaimSubset {
    fn default() -> (r: Self)
        ensures
            r@.claims == Map::<ScopeClaimKeyView, ClaimValue>::empty(),
            r@.date_synchronized@ == 1,
    {
        ClaimSubset { claims: ClaimMap::new(), date_synchronized: NonZeroUnixMillis::min_value() }
    }
}

impl ClaimSubset {
    /// Tells whether two subsets hold the same claims under the same time of
    /// synchronization.
    pub fn same(&self, other: &Self) -> (r: bool)
        ensures
            r == (self@ == other@),
    {
        self.date_synchronized == other.date_synchronized && self.claims.same(&other.claims)
    }

    /// The earliest update time among the claims; the latest time there is where
    /// there is no claim.
    pub fn first_updated(&self) -> (r: NonZeroUnixMillis)
        ensures
            r@ == earliest_update(self@.claims),
    {
        first_updated_of(&self.claims)
    }

    /// The latest update time among the claims; the earliest time there is where
    /// there is no claim.
    pub fn last_updated(&self) -> (r: NonZeroUnixMillis)
        ensures
            r@ == latest_update(self@.claims),
    {
        last_updated_of(&self.claims)
    }
}

/// What others may see of a player's claims in one game.
#[derive(Clone, Debug, PartialEq, Eq, Structural)]
pub struct PublicClaims {
    pub date_high_score: Option<NonZeroUnixMillis>,
    pub date_rank: Option<NonZeroUnixMillis>,
    pub high_score: u64,
    pub rank: u64,
    pub streak: u64,
}

impl Default for PublicClaims {
    fn default() -> (r: Self)
        ensures
            r == (PublicClaims {
                date_high_score: None,
                date_rank: None,
                high_score: 0,
                rank: 0,
                streak: 0,
            }),
    {
        PublicClaims { date_high_score: None, date_rank: None, high_score: 0, rank: 0, streak: 0 }
    }
}

/// All claims of a player: those of every game and realm, each under the key of
/// its scope.
#[derive(Clone, Debug)]
pub struct ClaimSet {
    pub game: ClaimMap<GameClaimKey>,
    pub global: ClaimMap<ClaimKey>,
    pub realm: ClaimMap<RealmClaimKey>,
}

/// A claim set as three mappings.
#[verifier::ext_equal]
pub ghost struct ClaimSetView {
    pub game: Map<GameClaimKeyView, ClaimValue>,
    pub global: Map<ClaimKeyView, ClaimValue>,
    pub realm: Map<RealmClaimKeyView, ClaimValue>,
}

impl View for ClaimSet {
    type V = ClaimSetView;

    open spec fn view(&self) -> ClaimSetView {
        ClaimSetView { game: self.game@, global: self.global@, realm: self.realm@ }
    }
}

impl Default for ClaimSet {
    fn default() -> (r: Self)
        ensures
            r@.is_empty(),
    {
        ClaimSet { game: ClaimMap::new(), global: ClaimMap::new(), realm: ClaimMap::new() }
    }
}

/// The key under which a game holds the claim `key`.
pub open spec fn game_key(game_id: Seq<char>, key: ClaimKeyView) -> GameClaimKeyView {
    GameClaimKeyView { game_id, key }
}

/// The key under which a realm of a game holds the claim `key`.
pub open spec fn realm_key(
    realm_id: RealmIdView,
    game_id: Seq<char>,
    key: ClaimKeyView,
) -> RealmClaimKeyView {
    RealmClaimKeyView { realm_id, key: game_key(game_id, key) }
}

/// The key of the claim `key` at the given scope.
pub open spec fn scope_key(scope: ClaimScope, key: ClaimKeyView) -> ScopeClaimKeyView {
    ScopeClaimKeyView { scope, key }
}

/// What a map holds for a key, if anything.
pub open spec fn value_at<K>(m: Map<K, ClaimValue>, k: K) -> Option<ClaimValue> {
    if m.contains_key(k) {
        Some(m[k])
    } else {
        None
    }
}

/// The well-known keys as views.
pub open spec fn high_score_key() -> ClaimKeyView {
    ClaimKeyView { name: "high_score"@, aggregation: ClaimAggregation::Max }
}

pub open spec fn rank_key() -> ClaimKeyView {
    ClaimKeyView { name: "rank"@, aggregation: ClaimAggregation::New }
}

pub open spec fn streak_key() -> ClaimKeyView {
    ClaimKeyView { name: "streak"@, aggregation: ClaimAggregation::Max }
}

/// How a query shows a claim: its magnitude and update time, or zero and no time
/// where there is no claim.
pub open spec fn shown(value: Option<ClaimValue>) -> (u64, Option<NonZeroUnixMillis>) {
    match value {
        Some(v) => (v.value, Some(v.date_updated)),
        None => (0, None),
    }
}

/// Which claims of a set a subset is to hold.
pub enum ClaimFilter<'a> {
    /// Every claim.
    All,
    /// The claims updated after the given time.
    UpdatedAfter(NonZeroUnixMillis),
    /// The claims whose keys the given map holds.
    Keys(&'a ClaimMap<ScopeClaimKey>),
}

impl<'a> ClaimFilter<'a> {
    /// Whether the filter lets a claim through.
    pub open spec fn accepts(&self, key: ScopeClaimKeyView, value: ClaimValue) -> bool {
        match self {
            ClaimFilter::All => true,
            ClaimFilter::UpdatedAfter(cutoff) => value.date_updated@ > cutoff@,
            ClaimFilter::Keys(keys) => keys@.contains_key(key),
        }
    }

    /// Tells whether the filter lets a claim through.
    pub fn test(&self, key: &ScopeClaimKey, value: &ClaimValue) -> (r: bool)
        ensures
            r == self.accepts(key@, *value),
    {
        match self {
            ClaimFilter::All => true,
            ClaimFilter::UpdatedAfter(cutoff) => value.date_updated.get() > cutoff.get(),
            ClaimFilter::Keys(keys) => keys.contains_key(key),
        }
    }
}

impl ClaimSetView {
    /// Whether the set holds no claim.
    pub open spec fn is_empty(self) -> bool {
        &&& self.game == Map::<GameClaimKeyView, ClaimValue>::empty()
        &&& self.global == Map::<ClaimKeyView, ClaimValue>::empty()
        &&& self.realm == Map::<RealmClaimKeyView, ClaimValue>::empty()
    }

    /// What the set holds for a scope key, seen from a realm of a game.
    pub open spec fn lookup(
        self,
        key: ScopeClaimKeyView,
        game_id: Seq<char>,
        realm_id: RealmIdView,
    ) -> Option<ClaimValue> {
        match key.scope {
            ClaimScope::Global => value_at(self.global, key.key),
            ClaimScope::Game => value_at(self.game, game_key(game_id, key.key)),
            ClaimScope::Realm => value_at(self.realm, realm_key(realm_id, game_id, key.key)),
        }
    }

    /// The claims that a realm of a game sees: the global ones, those of the game,
    /// and those of the realm, each under its scope key.
    pub open spec fn scoped(self, game_id: Seq<char>, realm_id: RealmIdView) -> Map<
        ScopeClaimKeyView,
        ClaimValue,
    > {
        Map::new(
            |key: ScopeClaimKeyView| self.lookup(key, game_id, realm_id) is Some,
            |key: ScopeClaimKeyView| self.lookup(key, game_id, realm_id)->0,
        )
    }

    /// The set without the claims that are past their expiration at `now`.
    pub open spec fn unexpired(self, now: NonZeroUnixMillis) -> ClaimSetView {
        ClaimSetView {
            game: unexpired(self.game, now),
            global: unexpired(self.global, now),
            realm: unexpired(self.realm, now),
        }
    }
}

/// The claims of `claims` that a filter lets through.
pub open spec fn filtered(
    claims: Map<ScopeClaimKeyView, ClaimValue>,
    filter: ClaimFilter,
) -> Map<ScopeClaimKeyView, ClaimValue> {
    Map::new(
        |key: ScopeClaimKeyView| claims.contains_key(key) && filter.accepts(key, claims[key]),
        |key: ScopeClaimKeyView| claims[key],
    )
}

/// What a store holds once the claims of `incoming` are merged into it: a claim
/// that the store lacks is taken as it comes, one that it has is merged by the
/// aggregation of its key, and the others stay.
pub open spec fn merged_into<K>(
    store: Map<K, ClaimValue>,
    incoming: Map<K, ClaimValue>,
    aggregation: spec_fn(K) -> ClaimAggregation,
) -> Map<K, ClaimValue> {
    Map::new(
        |k: K| store.contains_key(k) || incoming.contains_key(k),
        |k: K|
            if incoming.contains_key(k) {
                if store.contains_key(k) {
                    store[k].merged(incoming[k], aggregation(k))
                } else {
                    incoming[k]
                }
            } else {
                store[k]
            },
    )
}

/// The global claims among the claims of a subset, under their store keys.
pub open spec fn incoming_global(claims: Map<ScopeClaimKeyView, ClaimValue>) -> Map<
    ClaimKeyView,
    ClaimValue,
> {
    Map::new(
        |k: ClaimKeyView| claims.contains_key(scope_key(ClaimScope::Global, k)),
        |k: ClaimKeyView| claims[scope_key(ClaimScope::Global, k)],
    )
}

/// The claims of the game among the claims of a subset, under their store keys.
pub open spec fn incoming_game(
    claims: Map<ScopeClaimKeyView, ClaimValue>,
    game_id: Seq<char>,
) -> Map<GameClaimKeyView, ClaimValue> {
    Map::new(
        |k: GameClaimKeyView|
            k.game_id == game_id && claims.contains_key(scope_key(ClaimScope::Game, k.key)),
        |k: GameClaimKeyView| claims[scope_key(ClaimScope::Game, k.key)],
    )
}

/// The claims of the realm among the claims of a subset, under their store keys.
pub open spec fn incoming_realm(
    claims: Map<ScopeClaimKeyView, ClaimValue>,
    game_id: Seq<char>,
    realm_id: RealmIdView,
) -> Map<RealmClaimKeyView, ClaimValue> {
    Map::new(
        |k: RealmClaimKeyView|
            k.realm_id == realm_id && k.key.game_id == game_id && claims.contains_key(
                scope_key(ClaimScope::Realm, k.key.key),
            ),
        |k: RealmClaimKeyView| claims[scope_key(ClaimScope::Realm, k.key.key)],
    )
}

impl ClaimSubsetView {
    /// The earliest time for which the sender may not know what happened since:
    /// the earlier of its earliest update and its time of synchronization.
    pub open spec fn cutoff(self) -> int {
        if earliest_update(self.claims) < self.date_synchronized@ {
            earliest_update(self.claims)
        } else {
            self.date_synchronized@
        }
    }
}

impl ClaimSetView {
    /// The set once the claims of a subset that came from a realm of a game are
    /// merged into it.
    pub open spec fn merged(
        self,
        claims: Map<ScopeClaimKeyView, ClaimValue>,
        game_id: Seq<char>,
        realm_id: RealmIdView,
    ) -> ClaimSetView {
        ClaimSetView {
            global: merged_into(
                self.global,
                incoming_global(claims),
                |k: ClaimKeyView| k.aggregation,
            ),
            game: merged_into(
                self.game,
                incoming_game(claims, game_id),
                |k: GameClaimKeyView| k.key.aggregation,
            ),
            realm: merged_into(
                self.realm,
                incoming_realm(claims, game_id, realm_id),
                |k: RealmClaimKeyView| k.key.key.aggregation,
            ),
        }
    }

    /// Whether the set, before `claims` are merged into it, gives cause to tell the
    /// sender of a claim: the set holds it, and either the sender sent it and the
    /// merged value is not what was sent, or the sender did not send it and it was
    /// updated after `cutoff`.
    pub open spec fn echoes(
        self,
        claims: Map<ScopeClaimKeyView, ClaimValue>,
        cutoff: int,
        game_id: Seq<char>,
        realm_id: RealmIdView,
        key: ScopeClaimKeyView,
    ) -> bool {
        match self.lookup(key, game_id, realm_id) {
            None => false,
            Some(stored) => if claims.contains_key(key) {
                stored.merged(claims[key], key.key.aggregation) != claims[key]
            } else {
                stored.date_updated@ > cutoff
            },
        }
    }

    /// What the set is after a merge at `now`: expired claims are dropped first,
    /// then the subset is merged in.
    pub open spec fn after_merge(
        self,
        new: ClaimSubsetView,
        game_id: Seq<char>,
        realm_id: RealmIdView,
        now: NonZeroUnixMillis,
    ) -> ClaimSetView {
        self.unexpired(now).merged(new.claims, game_id, realm_id)
    }

    /// What a merge at `now` answers: the claims that give cause to tell the
    /// sender, as the set holds them after the merge, under the sender's time of
    /// synchronization.
    pub open spec fn reply(
        self,
        new: ClaimSubsetView,
        game_id: Seq<char>,
        realm_id: RealmIdView,
        now: NonZeroUnixMillis,
    ) -> ClaimSubsetView {
        ClaimSubsetView {
            claims: Map::new(
                |key: ScopeClaimKeyView|
                    self.unexpired(now).echoes(new.claims, new.cutoff(), game_id, realm_id, key),
                |key: ScopeClaimKeyView|
                    self.after_merge(new, game_id, realm_id, now).lookup(
                        key,
                        game_id,
                        realm_id,
                    )->0,
            ),
            date_synchronized: new.date_synchronized,
        }
    }

    /// Whether a merge at `now` changes the set: it drops an expired claim, or the
    /// subset brings something new.
    pub open spec fn changed_by_merge(
        self,
        new: ClaimSubsetView,
        game_id: Seq<char>,
        realm_id: RealmIdView,
        now: NonZeroUnixMillis,
    ) -> bool {
        self.unexpired(now) != self || self.after_merge(new, game_id, realm_id, now)
            != self.unexpired(now)
    }
}

/// The keys that come before place `i` of an order.
pub open spec fn keys_before<K>(order: Seq<K>, i: int) -> Set<K> {
    Set::new(|k: K| exists|j: int| 0 <= j < i && order[j] == k)
}

/// The claims of a map whose keys come before place `i` of an order.
pub open spec fn claims_before(
    claims: Map<ScopeClaimKeyView, ClaimValue>,
    order: Seq<ScopeClaimKeyView>,
    i: int,
) -> Map<ScopeClaimKeyView, ClaimValue> {
    claims.restrict(keys_before(order, i))
}

/// One place further on, the claims before it are those before, and the one at
/// the place.
pub proof fn lemma_claims_before_next(
    claims: Map<ScopeClaimKeyView, ClaimValue>,
    order: Seq<ScopeClaimKeyView>,
    i: int,
)
    requires
        0 <= i < order.len(),
        order.no_duplicates(),
        claims.contains_key(order[i]),
    ensures
        !claims_before(claims, order, i).contains_key(order[i]),
        claims_before(claims, order, i + 1) == claims_before(claims, order, i).insert(
            order[i],
            claims[order[i]],
        ),
{
    let before = claims_before(claims, order, i);
    let next = claims_before(claims, order, i + 1);
    assert(!keys_before(order, i).contains(order[i])) by {
        if keys_before(order, i).contains(order[i]) {
            let j = choose|j: int| 0 <= j < i && order[j] == order[i];
            assert(order[j] != order[i]);
        }
    }
    assert forall|k: ScopeClaimKeyView| keys_before(order, i + 1).contains(k) <==> (keys_before(
        order,
        i,
    ).contains(k) || k == order[i]) by {
        if keys_before(order, i + 1).contains(k) {
            let j = choose|j: int| 0 <= j < i + 1 && order[j] == k;
            if j < i {
                assert(keys_before(order, i).contains(k));
            }
        }
        if keys_before(order, i).contains(k) {
            let j = choose|j: int| 0 <= j < i && order[j] == k;
            assert(0 <= j < i + 1 && order[j] == k);
        }
        if k == order[i] {
            assert(0 <= i < i + 1 && order[i] == k);
        }
    }
    assert(next =~= before.insert(order[i], claims[order[i]]));
}

/// Before the first place there is no claim; past the last there are all.
pub proof fn lemma_claims_before_ends(
    claims: Map<ScopeClaimKeyView, ClaimValue>,
    order: Seq<ScopeClaimKeyView>,
)
    requires
        forall|k: ScopeClaimKeyView| claims.contains_key(k) <==> order.contains(k),
    ensures
        claims_before(claims, order, 0) == Map::<ScopeClaimKeyView, ClaimValue>::empty(),
        claims_before(claims, order, order.len() as int) == claims,
{
    assert(claims_before(claims, order, 0) =~= Map::<ScopeClaimKeyView, ClaimValue>::empty());
    assert forall|k: ScopeClaimKeyView| claims.contains_key(k) implies keys_before(
        order,
        order.len() as int,
    ).contains(k) by {
        assert(order.contains(k));
        let j = choose|j: int| 0 <= j < order.len() && order[j] == k;
        assert(0 <= j < order.len() && order[j] == k);
    }
    assert(claims_before(claims, order, order.len() as int) =~= claims);
}

/// One more claim of a subset, not merged in before, changes the merged set at
/// the store key of that claim alone, and what gives cause to tell the sender at
/// the key of that claim alone.
pub proof fn lemma_merge_step(
    swept: ClaimSetView,
    applied: Map<ScopeClaimKeyView, ClaimValue>,
    key: ScopeClaimKeyView,
    value: ClaimValue,
    cutoff: int,
    game_id: Seq<char>,
    realm_id: RealmIdView,
)
    requires
        !applied.contains_key(key),
    ensures
        swept.merged(applied, game_id, realm_id).lookup(key, game_id, realm_id) == swept.lookup(
            key,
            game_id,
            realm_id,
        ),
        swept.merged(applied.insert(key, value), game_id, realm_id) == ({
            let before = swept.merged(applied, game_id, realm_id);
            let merged = match swept.lookup(key, game_id, realm_id) {
                Some(stored) => stored.merged(value, key.key.aggregation),
                None => value,
            };
            match key.scope {
                ClaimScope::Global => ClaimSetView {
                    global: before.global.insert(key.key, merged),
                    ..before
                },
                ClaimScope::Game => ClaimSetView {
                    game: before.game.insert(game_key(game_id, key.key), merged),
                    ..before
                },
                ClaimScope::Realm => ClaimSetView {
                    realm: before.realm.insert(realm_key(realm_id, game_id, key.key), merged),
                    ..before
                },
            }
        }),
        forall|other: ScopeClaimKeyView|
            other != key ==> swept.echoes(
                applied.insert(key, value),
                cutoff,
                game_id,
                realm_id,
                other,
            ) == swept.echoes(applied, cutoff, game_id, realm_id, other),
        swept.echoes(applied.insert(key, value), cutoff, game_id, realm_id, key) == (swept.lookup(
            key,
            game_id,
            realm_id,
        ) matches Some(stored) && stored.merged(value, key.key.aggregation) != value),
{
    let before = swept.merged(applied, game_id, realm_id);
    let after = swept.merged(applied.insert(key, value), game_id, realm_id);
    let next = applied.insert(key, value);
    let merged = match swept.lookup(key, game_id, realm_id) {
        Some(stored) => stored.merged(value, key.key.aggregation),
        None => value,
    };
    assert forall|k: ClaimKeyView|
        incoming_global(next).contains_key(k) <==> (incoming_global(applied).contains_key(k) || (
        key.scope == ClaimScope::Global && k == key.key)) by {
        assert(scope_key(ClaimScope::Global, k) == key <==> (key.scope == ClaimScope::Global && k
            == key.key));
    }
    assert forall|k: GameClaimKeyView|
        incoming_game(next, game_id).contains_key(k) <==> (incoming_game(
            applied,
            game_id,
        ).contains_key(k) || (key.scope == ClaimScope::Game && k == game_key(
            game_id,
            key.key,
        ))) by {
        assert(scope_key(ClaimScope::Game, k.key) == key <==> (key.scope == ClaimScope::Game
            && k.key == key.key));
    }
    assert forall|k: RealmClaimKeyView|
        incoming_realm(next, game_id, realm_id).contains_key(k) <==> (incoming_realm(
            applied,
            game_id,
            realm_id,
        ).contains_key(k) || (key.scope == ClaimScope::Realm && k == realm_key(
            realm_id,
            game_id,
            key.key,
        ))) by {
        assert(scope_key(ClaimScope::Realm, k.key.key) == key <==> (key.scope
            == ClaimScope::Realm && k.key.key == key.key));
    }
    match key.scope {
        ClaimScope::Global => {
            assert(!incoming_global(applied).contains_key(key.key));
            assert(after.global =~= before.global.insert(key.key, merged));
            assert(after.game =~= before.game);
            assert(after.realm =~= before.realm);
        },
        ClaimScope::Game => {
            assert(!incoming_game(applied, game_id).contains_key(game_key(game_id, key.key)));
            assert(after.game =~= before.game.insert(game_key(game_id, key.key), merged));
            assert(after.global =~= before.global);
            assert(after.realm =~= before.realm);
        },
        ClaimScope::Realm => {
            assert(!incoming_realm(applied, game_id, realm_id).contains_key(
                realm_key(realm_id, game_id, key.key),
            ));
            assert(after.realm =~= before.realm.insert(
                realm_key(realm_id, game_id, key.key),
                merged,
            ));
            assert(after.global =~= before.global);
            assert(after.game =~= before.game);
        },
    }
}

/// Merges one claim into a map: taken as it comes where the map lacks its key,
/// merged by `aggregation` where the map has it. Tells whether the map changed,
/// and the merged value where there was one to merge with.
pub fn apply_claim<K: ClaimMapKey>(
    claims: &mut ClaimMap<K>,
    key: K,
    value: ClaimValue,
    aggregation: ClaimAggregation,
) -> (r: (bool, Option<ClaimValue>))
    ensures
        final(claims)@ == old(claims)@.insert(
            key@,
            match value_at(old(claims)@, key@) {
                Some(stored) => stored.merged(value, aggregation),
                None => value,
            },
        ),
        r.0 == (final(claims)@ != old(claims)@),
        r.1 == match value_at(old(claims)@, key@) {
            Some(stored) => Some(stored.merged(value, aggregation)),
            None => None,
        },
{
    match claims.get(&key) {
        None => {
            claims.insert(key, value);
            assert(!old(claims)@.contains_key(key@));
            assert(claims@.contains_key(key@));
            (true, None)
        },
        Some(stored) => {
            let mut occupied = stored;
            let changed = occupied.merge(&value, aggregation);
            claims.insert(key, occupied);
            proof {
                if changed {
                    assert(claims@[key@] != old(claims)@[key@]);
                } else {
                    assert(claims@ =~= old(claims)@);
                }
            }
            (changed, Some(occupied))
        },
    }
}

impl ClaimSet {
    /// The claims that a realm of a game sees and that the filter lets through,
    /// with the given time of synchronization, or the earliest time where none is given.
    pub fn filtered_subset(
        &self,
        filter: &ClaimFilter,
        date_synchronized: Option<NonZeroUnixMillis>,
        game_id: GameId,
        realm_id: RealmId,
    ) -> (r: ClaimSubset)
        ensures
            r@.claims == filtered(self@.scoped(game_id@, realm_id@), *filter),
            r@.date_synchronized@ == match date_synchronized {
                Some(date) => date@,
                None => 1,
            },
    {
        let ghost g = game_id@;
        let ghost rl = realm_id@;
        let ghost all = self@.scoped(g, rl);
        let ghost want = filtered(all, *filter);
        let mut claims: ClaimMap<ScopeClaimKey> = ClaimMap::new();
        let n = self.global.len();
        let mut i: usize = 0;
        while i < n
            invariant
                i <= n,
                n == self.global.order().len(),
                all == self@.scoped(g, rl),
                want == filtered(all, *filter),
                forall|k: ClaimKeyView|
                    self.global@.contains_key(k) <==> self.global.order().contains(k),
                forall|key: ScopeClaimKeyView| #[trigger]
                    claims@.contains_key(key) <==> (want.contains_key(key) && key.scope
                        == ClaimScope::Global && exists|j: int|
                        0 <= j < i && self.global.order()[j] == key.key),
                forall|key: ScopeClaimKeyView| #[trigger]
                    claims@.contains_key(key) ==> claims@[key] == want[key],
            decreases n - i,
        {
            let (k, value) = self.global.entry(i);
            let key = ScopeClaimKey { scope: ClaimScope::Global, key: k };
            assert(all.contains_key(key@) && all[key@] == value);
            if filter.test(&key, &value) {
                claims.insert(key, value);
            }
            i += 1;
        }
        assert forall|key: ScopeClaimKeyView| #[trigger]
            claims@.contains_key(key) <==> (want.contains_key(key) && key.scope
                == ClaimScope::Global) by {
            if want.contains_key(key) && key.scope == ClaimScope::Global {
                assert(self.global.order().contains(key.key));
            }
        }
        let n = self.game.len();
        let mut i: usize = 0;
        while i < n
            invariant
                i <= n,
                n == self.game.order().len(),
                g == game_id@,
                all == self@.scoped(g, rl),
                want == filtered(all, *filter),
                forall|k: GameClaimKeyView|
                    self.game@.contains_key(k) <==> self.game.order().contains(k),
                forall|key: ScopeClaimKeyView| #[trigger]
                    claims@.contains_key(key) <==> (want.contains_key(key) && (key.scope
                        == ClaimScope::Global || (key.scope == ClaimScope::Game && exists|j: int|
                        0 <= j < i && self.game.order()[j] == game_key(g, key.key)))),
                forall|key: ScopeClaimKeyView| #[trigger]
                    claims@.contains_key(key) ==> claims@[key] == want[key],
            decreases n - i,
        {
            let (k, value) = self.game.entry(i);
            if k.game_id.same(&game_id) {
                let key = ScopeClaimKey { scope: ClaimScope::Game, key: k.key };
                assert(k@ == game_key(g, key@.key));
                assert(all.contains_key(key@) && all[key@] == value);
                if filter.test(&key, &value) {
                    claims.insert(key, value);
                }
            }
            i += 1;
        }
        assert forall|key: ScopeClaimKeyView| #[trigger]
            claims@.contains_key(key) <==> (want.contains_key(key) && (key.scope
                == ClaimScope::Global || key.scope == ClaimScope::Game)) by {
            if want.contains_key(key) && key.scope == ClaimScope::Game {
                assert(self.game.order().contains(game_key(g, key.key)));
            }
        }
        let n = self.realm.len();
        let mut i: usize = 0;
        while i < n
            invariant
                i <= n,
                n == self.realm.order().len(),
                g == game_id@,
                rl == realm_id@,
                all == self@.scoped(g, rl),
                want == filtered(all, *filter),
                forall|k: RealmClaimKeyView|
                    self.realm@.contains_key(k) <==> self.realm.order().contains(k),
                forall|key: ScopeClaimKeyView| #[trigger]
                    claims@.contains_key(key) <==> (want.contains_key(key) && (key.scope
                        != ClaimScope::Realm || exists|j: int|
                        0 <= j < i && self.realm.order()[j] == realm_key(rl, g, key.key))),
                forall|key: ScopeClaimKeyView| #[trigger]
                    claims@.contains_key(key) ==> claims@[key] == want[key],
            decreases n - i,
        {
            let (k, value) = self.realm.entry(i);
            if k.key.game_id.same(&game_id) && k.realm_id.same(&realm_id) {
                let key = ScopeClaimKey { scope: ClaimScope::Realm, key: k.key.key };
                assert(k@ == realm_key(rl, g, key@.key));
                assert(all.contains_key(key@) && all[key@] == value);
                if filter.test(&key, &value) {
                    claims.insert(key, value);
                }
            }
            i += 1;
        }
        assert(claims@ =~= want) by {
            assert forall|key: ScopeClaimKeyView| #[trigger]
                claims@.contains_key(key) <==> want.contains_key(key) by {
                if want.contains_key(key) && key.scope == ClaimScope::Realm {
                    assert(self.realm.order().contains(realm_key(rl, g, key.key)));
                }
            }
        }
        let date_synchronized = match date_synchronized {
            Some(date) => date,
            None => NonZeroUnixMillis::min_value(),
        };
        ClaimSubset { claims, date_synchronized }
    }

    /// Brings the claims of a subset, which came from a realm of a game, into the
    /// set as of the time `now`. Claims past their expiration are dropped first.
    /// Hands back what to tell the sender, and whether the set changed and is to
    /// be saved.
    pub fn merge(
        &mut self,
        new: &ClaimSubset,
        game_id: GameId,
        realm_id: RealmId,
        now: NonZeroUnixMillis,
    ) -> (r: (Option<ClaimSubset>, bool))
        ensures
            final(self)@ == old(self)@.after_merge(new@, game_id@, realm_id@, now),
            r.0 matches Some(reply) && reply@ == old(self)@.reply(
                new@,
                game_id@,
                realm_id@,
                now,
            ),
            r.1 == old(self)@.changed_by_merge(new@, game_id@, realm_id@, now),
    {
        let ghost g = game_id@;
        let ghost rl = realm_id@;
        let ghost swept = old(self)@.unexpired(now);
        let ghost sent = new@.claims;

        // Expired claims leave before anything is merged with them.
        let dropped_global = self.global.sweep(now);
        let dropped_game = self.game.sweep(now);
        let dropped_realm = self.realm.sweep(now);
        let dropped = dropped_global || dropped_game || dropped_realm;
        assert(self@ == swept);
        assert(dropped == (swept != old(self)@));

        // What the sender may not know of yet.
        let first = new.first_updated();
        let cutoff = if first.get() < new.date_synchronized.get() {
            first
        } else {
            new.date_synchronized
        };
        assert(cutoff@ == new@.cutoff());
        let mut changed_recently = self.filtered_subset(
            &ClaimFilter::UpdatedAfter(cutoff),
            None,
            game_id,
            realm_id,
        ).claims;

        let n = new.claims.len();
        let ghost order = new.claims.order();
        proof {
            lemma_claims_before_ends(sent, order);
            let none = claims_before(sent, order, 0);
            assert(swept.merged(none, g, rl).global =~= swept.global);
            assert(swept.merged(none, g, rl).game =~= swept.game);
            assert(swept.merged(none, g, rl).realm =~= swept.realm);
            assert(changed_recently@.dom() =~= Set::new(
                |key: ScopeClaimKeyView| swept.echoes(none, cutoff@, g, rl, key),
            ));
        }
        let mut changed = dropped;
        let mut i: usize = 0;
        while i < n
            invariant
                i <= n,
                n == order.len(),
                order == new.claims.order(),
                order.no_duplicates(),
                sent == new@.claims,
                forall|k: ScopeClaimKeyView| sent.contains_key(k) <==> order.contains(k),
                g == game_id@,
                rl == realm_id@,
                self@ == swept.merged(claims_before(sent, order, i as int), g, rl),
                changed_recently@.dom() =~= Set::new(
                    |key: ScopeClaimKeyView|
                        swept.echoes(claims_before(sent, order, i as int), cutoff@, g, rl, key),
                ),
                changed == (dropped || self@ != swept),
            decreases n - i,
        {
            let ghost applied = claims_before(sent, order, i as int);
            let ghost before = self@;
            let (scope_key, value) = new.claims.entry(i);
            let key = scope_key.key;
            proof {
                assert(order.contains(order[i as int]));
                lemma_claims_before_next(sent, order, i as int);
                lemma_merge_step(swept, applied, scope_key@, value, cutoff@, g, rl);
            }
            let (step_changed, merged) = match scope_key.scope {
                ClaimScope::Global => apply_claim(&mut self.global, key, value, key.aggregation),
                ClaimScope::Game => apply_claim(
                    &mut self.game,
                    GameClaimKey { game_id, key },
                    value,
                    key.aggregation,
                ),
                ClaimScope::Realm => apply_claim(
                    &mut self.realm,
                    RealmClaimKey { realm_id, key: GameClaimKey { game_id, key } },
                    value,
                    key.aggregation,
                ),
            };
            assert(self@ == swept.merged(applied.insert(scope_key@, value), g, rl));
            assert(step_changed == (self@ != before));
            assert(merged == match swept.lookup(scope_key@, g, rl) {
                Some(stored) => Some(stored.merged(value, key@.aggregation)),
                None => None,
            });
            proof {
                // The set differs from the swept one exactly when it did before, or
                // when this claim changed it.
                if self@ == swept && before != swept {
                    assert(before.global =~= swept.global);
                    assert(before.game =~= swept.game);
                    assert(before.realm =~= swept.realm);
                }
            }
            changed = changed || step_changed;
            match merged {
                Some(stored) => {
                    if stored == value {
                        changed_recently.remove(&scope_key);
                    } else {
                        changed_recently.insert(scope_key, stored);
                    }
                },
                None => {},
            }
            i += 1;
        }
        proof {
            lemma_claims_before_ends(sent, order);
        }
        let reply = self.filtered_subset(
            &ClaimFilter::Keys(&changed_recently),
            Some(new.date_synchronized),
            game_id,
            realm_id,
        );
        proof {
            let want = old(self)@.reply(new@, g, rl, now);
            assert(reply@.date_synchronized == want.date_synchronized) by {
                NonZeroUnixMillis::lemma_view_of(reply@.date_synchronized);
                NonZeroUnixMillis::lemma_view_of(want.date_synchronized);
            }
            assert(reply@.claims =~= want.claims);
        }
        (Some(reply), changed)
    }

    /// All the claims that a realm of a game sees.
    pub fn subset(&self, game_id: GameId, realm_id: RealmId) -> (r: ClaimSubset)
        ensures
            r@.claims == self@.scoped(game_id@, realm_id@),
            r@.date_synchronized@ == 1,
    {
        let r = self.filtered_subset(&ClaimFilter::All, None, game_id, realm_id);
        assert(filtered(self@.scoped(game_id@, realm_id@), ClaimFilter::All)
            =~= self@.scoped(game_id@, realm_id@));
        r
    }

    /// The best score of the player in a game, and when it was reached.
    pub fn high_score(&self, game_id: GameId) -> (r: (u64, Option<NonZeroUnixMillis>))
        ensures
            r == shown(value_at(self@.game, game_key(game_id@, high_score_key()))),
    {
        let key = GameClaimKey { game_id, key: ScopeClaimKey::high_score().key };
        match self.game.get(&key) {
            Some(v) => (v.value, Some(v.date_updated)),
            None => (0, None),
        }
    }

    /// The rank of the player in a game, and when it was given.
    pub fn rank(&self, game_id: GameId) -> (r: (u64, Option<NonZeroUnixMillis>))
        ensures
            r == shown(value_at(self@.game, game_key(game_id@, rank_key()))),
    {
        let key = GameClaimKey { game_id, key: ScopeClaimKey::rank().key };
        match self.game.get(&key) {
            Some(v) => (v.value, Some(v.date_updated)),
            None => (0, None),
        }
    }

    /// For how many days in a row the player has played.
    pub fn streak(&self) -> (r: u64)
        ensures
            r == shown(value_at(self@.global, streak_key())).0,
    {
        match self.global.get(&ScopeClaimKey::streak().key) {
            Some(v) => v.value,
            None => 0,
        }
    }

    /// What others may see of the claims in a game.
    pub fn public_claims(&self, game_id: GameId) -> (r: PublicClaims)
        ensures
            r == (PublicClaims {
                date_high_score: shown(
                    value_at(self@.game, game_key(game_id@, high_score_key())),
                ).1,
                date_rank: shown(value_at(self@.game, game_key(game_id@, rank_key()))).1,
                high_score: shown(value_at(self@.game, game_key(game_id@, high_score_key()))).0,
                rank: shown(value_at(self@.game, game_key(game_id@, rank_key()))).0,
                streak: shown(value_at(self@.global, streak_key())).0,
            }),
    {
        let (high_score, date_high_score) = self.high_score(game_id);
        let (rank, date_rank) = self.rank(game_id);
        PublicClaims { date_high_score, date_rank, high_score, rank, streak: self.streak() }
    }

    /// Tells whether two sets hold the same claims.
    pub fn same(&self, other: &Self) -> (r: bool)
        ensures
            r == (self@ == other@),
    {
        self.game.same(&other.game) && self.global.same(&other.global) && self.realm.same(
            &other.realm,
        )
    }

    /// Tells whether the set holds no claim.
    pub fn is_empty(&self) -> (r: bool)
        ensures
            r == self@.is_empty(),
    {
        self.game.is_empty() && self.global.is_empty() && self.realm.is_empty()
    }

    /// The latest update time among all claims; the earliest time there is where
    /// there is no claim.
    pub fn last_updated(&self) -> (r: NonZeroUnixMillis)
        ensures
            r@ >= latest_update(self@.global),
            r@ >= latest_update(self@.game),
            r@ >= latest_update(self@.realm),
            r@ == latest_update(self@.global) || r@ == latest_update(self@.game) || r@
                == latest_update(self@.realm),
    {
        let mut r = last_updated_of(&self.global);
        let game = last_updated_of(&self.game);
        if game.get() > r.get() {
            r = game;
        }
        let realm = last_updated_of(&self.realm);
        if realm.get() > r.get() {
            r = realm;
        }
        r
    }
}

} // verus!
