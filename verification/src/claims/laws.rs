use crate::claims::keys::{
    ClaimKeyError, ClaimKeyView, GameClaimKeyError, GameClaimKeyView, RealmClaimKeyError,
    RealmClaimKeyView, ScopeClaimKeyError, ScopeClaimKeyView,
};
use crate::claims::map::unexpired;
use crate::claims::subsets::{
    incoming_game, incoming_global, incoming_realm, merged_into, ClaimSetView, ClaimSubsetView,
};
use crate::claims::values::{ClaimAggregation, ClaimValue, ClaimValueError};
use crate::ids::realm::RealmIdView;
use crate::time::NonZeroUnixMillis;
use vstd::prelude::*;

verus! {

/// Merging a value into itself leaves it as it is, under every aggregation; the
/// merge then reports no change.
pub proof fn lemma_merge_idempotent(v: ClaimValue, aggregation: ClaimAggregation)
    ensures
        v.merged(v, aggregation) == v,
{
}

/// Merging the same value in a second time changes nothing more.
pub proof fn lemma_merge_absorbs(
    stored: ClaimValue,
    incoming: ClaimValue,
    aggregation: ClaimAggregation,
)
    ensures
        stored.merged(incoming, aggregation).merged(incoming, aggregation) == stored.merged(
            incoming,
            aggregation,
        ),
{
    NonZeroUnixMillis::lemma_view_of(stored.date_updated);
    NonZeroUnixMillis::lemma_view_of(incoming.date_updated);
}

/// What a value becomes when the values of `incoming` are merged into it one
/// after the other.
pub open spec fn merged_all(
    v: ClaimValue,
    incoming: Seq<ClaimValue>,
    aggregation: ClaimAggregation,
) -> ClaimValue
    decreases incoming.len(),
{
    if incoming.len() == 0 {
        v
    } else {
        merged_all(v, incoming.drop_last(), aggregation).merged(incoming.last(), aggregation)
    }
}

/// Under `Max` a merge never lowers the stored magnitude, and under `Min` it
/// never raises it.
pub proof fn lemma_merge_monotonic(stored: ClaimValue, incoming: ClaimValue)
    ensures
        stored.merged(incoming, ClaimAggregation::Max).value >= stored.value,
        stored.merged(incoming, ClaimAggregation::Min).value <= stored.value,
{
}

/// Over any run of merges under `Max` the stored magnitude never goes down from
/// one merge to a later one; under `Min` it never goes up.
pub proof fn lemma_merges_monotonic(v: ClaimValue, incoming: Seq<ClaimValue>, i: int, j: int)
    requires
        0 <= i <= j <= incoming.len(),
    ensures
        merged_all(v, incoming.take(i), ClaimAggregation::Max).value <= merged_all(
            v,
            incoming.take(j),
            ClaimAggregation::Max,
        ).value,
        merged_all(v, incoming.take(i), ClaimAggregation::Min).value >= merged_all(
            v,
            incoming.take(j),
            ClaimAggregation::Min,
        ).value,
    decreases j - i,
{
    if i < j {
        lemma_merges_monotonic(v, incoming, i, j - 1);
        assert(incoming.take(j).drop_last() == incoming.take(j - 1));
    }
}

/// Under `New`, after any run of merges, the stored value is the one among the
/// first value and the merged ones that was updated last, and among several
/// updated at that same time, the one that was merged last.
pub proof fn lemma_merges_keep_newest(v: ClaimValue, incoming: Seq<ClaimValue>) -> (at: int)
    ensures
        0 <= at <= incoming.len(),
        merged_all(v, incoming, ClaimAggregation::New) == (seq![v] + incoming)[at],
        forall|j: int|
            0 <= j <= incoming.len() ==> (#[trigger] (seq![v] + incoming)[j]).date_updated@ <= (
            seq![v] + incoming)[at].date_updated@,
        forall|j: int|
            at < j <= incoming.len() ==> (#[trigger] (seq![v] + incoming)[j]).date_updated@ < (
            seq![v] + incoming)[at].date_updated@,
    decreases incoming.len(),
{
    let all = seq![v] + incoming;
    if incoming.len() == 0 {
        0
    } else {
        let init = incoming.drop_last();
        let before = lemma_merges_keep_newest(v, init);
        let stored = merged_all(v, init, ClaimAggregation::New);
        let last = incoming.last();
        assert(seq![v] + init == all.drop_last());
        assert forall|j: int| 0 <= j <= init.len() implies (seq![v] + init)[j] == all[j] by {}
        NonZeroUnixMillis::lemma_view_of(stored.date_updated);
        NonZeroUnixMillis::lemma_view_of(last.date_updated);
        assert(all[incoming.len() as int] == last);
        if last.date_updated@ >= stored.date_updated@ {
            assert(stored.merged(last, ClaimAggregation::New) == last);
            incoming.len() as int
        } else {
            assert(stored.merged(last, ClaimAggregation::New) == stored);
            before
        }
    }
}

/// After a merge, a claim that the set holds and that the subset did not supply
/// is not past its expiration: what was expired when the merge began is gone.
pub proof fn lemma_merge_drops_expired(
    set: ClaimSetView,
    new: ClaimSubsetView,
    game_id: Seq<char>,
    realm_id: RealmIdView,
    now: NonZeroUnixMillis,
)
    ensures
        ({
            let after = set.after_merge(new, game_id, realm_id, now);
            &&& forall|k: ClaimKeyView| #[trigger]
                after.global.contains_key(k) && !incoming_global(new.claims).contains_key(k)
                    ==> set.global.contains_key(k) && after.global[k] == set.global[k]
                    && !after.global[k].expired_at(now)
            &&& forall|k: GameClaimKeyView| #[trigger]
                after.game.contains_key(k) && !incoming_game(new.claims, game_id).contains_key(k)
                    ==> set.game.contains_key(k) && after.game[k] == set.game[k]
                    && !after.game[k].expired_at(now)
            &&& forall|k: RealmClaimKeyView| #[trigger]
                after.realm.contains_key(k) && !incoming_realm(
                    new.claims,
                    game_id,
                    realm_id,
                ).contains_key(k) ==> set.realm.contains_key(k) && after.realm[k] == set.realm[k]
                    && !after.realm[k].expired_at(now)
        }),
{
}

/// Whether merging `incoming` a second time at `now`, into a store that holds
/// the result of merging it once, gives that store again: every claim of the
/// store that is past its expiration at `now` is one that comes in as it is.
pub open spec fn settled<K>(
    once: Map<K, ClaimValue>,
    incoming: Map<K, ClaimValue>,
    now: NonZeroUnixMillis,
) -> bool {
    forall|k: K| #[trigger]
        once.contains_key(k) && once[k].expired_at(now) ==> incoming.contains_key(k)
            && incoming[k] == once[k]
}

/// Merging the same claims a second time, at any time, gives the same store as
/// the first time exactly when the store that the first merge left is settled.
pub proof fn lemma_second_merge_map<K>(
    store: Map<K, ClaimValue>,
    incoming: Map<K, ClaimValue>,
    aggregation: spec_fn(K) -> ClaimAggregation,
    now: NonZeroUnixMillis,
)
    ensures
        ({
            let once = merged_into(store, incoming, aggregation);
            let twice = merged_into(unexpired(once, now), incoming, aggregation);
            (twice == once) <==> settled(once, incoming, now)
        }),
{
    let once = merged_into(store, incoming, aggregation);
    let twice = merged_into(unexpired(once, now), incoming, aggregation);
    if settled(once, incoming, now) {
        assert forall|k: K| once.contains_key(k) implies #[trigger] twice.contains_key(k)
            && twice[k] == once[k] by {
            if incoming.contains_key(k) {
                lemma_merge_idempotent(incoming[k], aggregation(k));
                if store.contains_key(k) {
                    lemma_merge_absorbs(store[k], incoming[k], aggregation(k));
                }
            }
        }
        assert(twice =~= once);
    } else {
        let k = choose|k: K| #[trigger]
            once.contains_key(k) && once[k].expired_at(now) && !(incoming.contains_key(k)
                && incoming[k] == once[k]);
        assert(!unexpired(once, now).contains_key(k));
        if incoming.contains_key(k) {
            assert(twice[k] == incoming[k]);
        } else {
            assert(!twice.contains_key(k));
        }
    }
}

/// Applying the same subset to a set a second time, at any time, gives the same
/// set as the first time exactly when every claim that the first merge left in
/// the set and that is past its expiration at the second time is one that the
/// subset supplies as it is.
pub proof fn lemma_second_merge_same_set(
    set: ClaimSetView,
    new: ClaimSubsetView,
    game_id: Seq<char>,
    realm_id: RealmIdView,
    first: NonZeroUnixMillis,
    second: NonZeroUnixMillis,
)
    ensures
        ({
            let once = set.after_merge(new, game_id, realm_id, first);
            let twice = once.after_merge(new, game_id, realm_id, second);
            (twice == once) <==> {
                &&& settled(once.global, incoming_global(new.claims), second)
                &&& settled(once.game, incoming_game(new.claims, game_id), second)
                &&& settled(once.realm, incoming_realm(new.claims, game_id, realm_id), second)
            }
        }),
{
    let swept = set.unexpired(first);
    lemma_second_merge_map(
        swept.global,
        incoming_global(new.claims),
        |k: ClaimKeyView| k.aggregation,
        second,
    );
    lemma_second_merge_map(
        swept.game,
        incoming_game(new.claims, game_id),
        |k: GameClaimKeyView| k.key.aggregation,
        second,
    );
    lemma_second_merge_map(
        swept.realm,
        incoming_realm(new.claims, game_id, realm_id),
        |k: RealmClaimKeyView| k.key.key.aggregation,
        second,
    );
}

/// The answer to a second application of the same subset, at any time, tells the
/// sender nothing that the answer to the first did not: every claim in it is in
/// the first answer too, with the same value.
pub proof fn lemma_second_reply_within_first(
    set: ClaimSetView,
    new: ClaimSubsetView,
    game_id: Seq<char>,
    realm_id: RealmIdView,
    first: NonZeroUnixMillis,
    second: NonZeroUnixMillis,
)
    ensures
        ({
            let once = set.after_merge(new, game_id, realm_id, first);
            let reply1 = set.reply(new, game_id, realm_id, first);
            let reply2 = once.reply(new, game_id, realm_id, second);
            reply2.claims.submap_of(reply1.claims)
        }),
{
    let swept = set.unexpired(first);
    let once = set.after_merge(new, game_id, realm_id, first);
    let swept2 = once.unexpired(second);
    let twice = once.after_merge(new, game_id, realm_id, second);
    let reply1 = set.reply(new, game_id, realm_id, first);
    let reply2 = once.reply(new, game_id, realm_id, second);
    assert forall|key: ScopeClaimKeyView| #[trigger] reply2.claims.contains_key(key) implies
        reply1.claims.contains_key(key) && reply1.claims[key] == reply2.claims[key] by {
        let stored = swept2.lookup(key, game_id, realm_id)->0;
        assert(once.lookup(key, game_id, realm_id) == Some(stored));
        if new.claims.contains_key(key) {
            let sent = new.claims[key];
            lemma_merge_idempotent(sent, key.key.aggregation);
            match swept.lookup(key, game_id, realm_id) {
                Some(before) => {
                    lemma_merge_absorbs(before, sent, key.key.aggregation);
                },
                None => {},
            }
        }
    }
}

/// The text of a claim value reads back as that value.
pub proof fn lemma_value_round_trip(v: ClaimValue)
    requires
        v.valid(),
    ensures
        ClaimValue::parse(v.text()) == Ok::<ClaimValue, ClaimValueError>(v),
{
    v.lemma_parse_text();
}

/// The record of a claim value reads back as that value.
pub proof fn lemma_value_record_round_trip(v: ClaimValue)
    requires
        v.valid(),
    ensures
        ClaimValue::parse_record(v.record()) == Some(v),
{
    v.lemma_parse_record();
}

/// The text of a claim key reads back as that key.
pub proof fn lemma_key_round_trip(key: ClaimKeyView)
    requires
        key.valid(),
    ensures
        ClaimKeyView::parse(key.text()) == Ok::<ClaimKeyView, ClaimKeyError>(key),
{
    key.lemma_parse_text();
}

/// The text of a game claim key reads back as that key.
pub proof fn lemma_game_key_round_trip(key: GameClaimKeyView)
    requires
        key.valid(),
    ensures
        GameClaimKeyView::parse(key.text()) == Ok::<GameClaimKeyView, GameClaimKeyError>(key),
{
    key.lemma_parse_text();
}

/// The text of a realm claim key reads back as that key.
pub proof fn lemma_realm_key_round_trip(key: RealmClaimKeyView)
    requires
        key.valid(),
    ensures
        RealmClaimKeyView::parse(key.text()) == Ok::<RealmClaimKeyView, RealmClaimKeyError>(key),
{
    key.lemma_parse_text();
}

/// The text of a scope claim key reads back as that key.
pub proof fn lemma_scope_key_round_trip(key: ScopeClaimKeyView)
    requires
        key.valid(),
    ensures
        ScopeClaimKeyView::parse(key.text()) == Ok::<ScopeClaimKeyView, ScopeClaimKeyError>(key),
{
    key.lemma_parse_text();
}

} // verus!
