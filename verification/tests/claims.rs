use plasma_protocol::{
    ClaimAggregation, ClaimFilter, ClaimKey, ClaimName, ClaimScope, ClaimSet, ClaimSubset,
    ClaimValue, GameClaimKey, GameId, NonZeroUnixMillis, PublicClaims, RealmClaimKey, RealmId,
    RealmName, ScopeClaimKey, SkuId,
};
use plasma_protocol::nonzero::NonZero64;

fn at(millis: u64) -> NonZeroUnixMillis {
    NonZeroUnixMillis::new(millis).unwrap()
}

fn value(value: u64, updated: u64, expires: Option<u64>) -> ClaimValue {
    ClaimValue {
        value,
        date_updated: at(updated),
        date_expires: expires.map(at),
    }
}

fn subset(date_synchronized: u64, claims: &[(ScopeClaimKey, ClaimValue)]) -> ClaimSubset {
    let mut subset = ClaimSubset::default();
    subset.date_synchronized = at(date_synchronized);
    for (key, value) in claims {
        subset.claims.insert(*key, *value);
    }
    subset
}

fn game() -> GameId {
    GameId::new("mk48")
}

fn high_score_of(set: &ClaimSet) -> Option<ClaimValue> {
    set.game.get(&GameClaimKey {
        game_id: game(),
        key: ScopeClaimKey::high_score().key,
    })
}

#[test]
fn merge_same_value_changes_nothing() {
    for aggregation in [ClaimAggregation::Max, ClaimAggregation::Min, ClaimAggregation::New] {
        for v in [value(5, 10, None), value(0, 1, Some(7)), value(u64::MAX, u64::MAX, Some(1))] {
            let mut stored = v;
            assert!(!stored.merge(&v, aggregation));
            assert_eq!(stored, v);
        }
    }
}

#[test]
fn merge_max_takes_greater_value_with_its_dates() {
    let mut stored = value(10, 100, Some(500));
    assert!(stored.merge(&value(11, 50, None), ClaimAggregation::Max));
    assert_eq!(stored, value(11, 50, None));
}

#[test]
fn merge_max_keeps_value_on_tie_and_on_less() {
    let mut stored = value(10, 100, None);
    assert!(!stored.merge(&value(10, 100, None), ClaimAggregation::Max));
    assert!(!stored.merge(&value(9, 50, Some(60)), ClaimAggregation::Max));
    assert_eq!(stored, value(10, 100, None));
}

#[test]
fn merge_max_takes_newer_expiration_of_lesser_value() {
    let mut stored = value(10, 100, Some(200));
    assert!(stored.merge(&value(9, 100, Some(300)), ClaimAggregation::Max));
    assert_eq!(stored, value(10, 100, Some(300)));
    assert!(stored.merge(&value(1, 150, None), ClaimAggregation::Max));
    assert_eq!(stored, value(10, 100, None));
}

#[test]
fn merge_min_takes_lesser_value() {
    let mut stored = value(10, 100, None);
    assert!(stored.merge(&value(3, 20, Some(40)), ClaimAggregation::Min));
    assert_eq!(stored, value(3, 20, Some(40)));
    assert!(!stored.merge(&value(4, 10, None), ClaimAggregation::Min));
    assert_eq!(stored, value(3, 20, Some(40)));
}

#[test]
fn merge_new_prefers_incoming_on_equal_time() {
    let mut stored = value(10, 100, None);
    assert!(stored.merge(&value(7, 100, None), ClaimAggregation::New));
    assert_eq!(stored, value(7, 100, None));
    assert!(!stored.merge(&value(99, 99, Some(5)), ClaimAggregation::New));
    assert_eq!(stored, value(7, 100, None));
}

#[test]
fn max_never_goes_down_and_min_never_up_over_a_run() {
    let run = [value(5, 1, None), value(3, 9, None), value(8, 2, None), value(8, 7, None), value(1, 3, None)];
    let mut max = value(4, 4, None);
    let mut min = value(4, 4, None);
    for incoming in run {
        let (before_max, before_min) = (max.value, min.value);
        max.merge(&incoming, ClaimAggregation::Max);
        min.merge(&incoming, ClaimAggregation::Min);
        assert!(max.value >= before_max);
        assert!(min.value <= before_min);
    }
    assert_eq!(max.value, 8);
    assert_eq!(min.value, 1);
}

#[test]
fn new_keeps_the_latest_and_among_equals_the_last_merged() {
    let run = [value(5, 10, None), value(3, 30, None), value(8, 20, None), value(9, 30, Some(40)), value(1, 29, None)];
    let mut stored = value(4, 4, None);
    for incoming in run {
        stored.merge(&incoming, ClaimAggregation::New);
    }
    assert_eq!(stored, value(9, 30, Some(40)));
}

#[test]
fn first_claim_is_stored_and_not_echoed() {
    let mut set = ClaimSet::default();
    let incoming = subset(1000, &[(ScopeClaimKey::high_score(), value(100, 1000, None))]);
    let (reply, changed) = set.merge(&incoming, game(), RealmId::PublicDefault, at(1000));
    let reply = reply.unwrap();
    assert!(changed);
    assert!(reply.claims.is_empty());
    assert_eq!(reply.date_synchronized, at(1000));
    assert_eq!(high_score_of(&set), Some(value(100, 1000, None)));
    assert_eq!(set.game.len(), 1);
    assert!(set.global.is_empty());
    assert!(set.realm.is_empty());
}

#[test]
fn stale_lower_value_is_corrected() {
    let mut set = ClaimSet::default();
    set.merge(
        &subset(1000, &[(ScopeClaimKey::high_score(), value(100, 1000, None))]),
        game(),
        RealmId::PublicDefault,
        at(1000),
    );
    let incoming = subset(1200, &[(ScopeClaimKey::high_score(), value(80, 1200, None))]);
    let (reply, changed) = set.merge(&incoming, game(), RealmId::PublicDefault, at(1200));
    let reply = reply.unwrap();
    assert!(!changed);
    assert_eq!(high_score_of(&set), Some(value(100, 1000, None)));
    assert_eq!(reply.claims.len(), 1);
    assert_eq!(reply.claims.get(&ScopeClaimKey::high_score()), Some(value(100, 1000, None)));
    assert_eq!(reply.date_synchronized, at(1200));
}

#[test]
fn expiration_is_enforced_at_the_start_of_the_next_merge() {
    let mut set = ClaimSet::default();
    let incoming = subset(500, &[(ScopeClaimKey::high_score(), value(50, 500, Some(600)))]);
    let (_, changed) = set.merge(&incoming, game(), RealmId::PublicDefault, at(550));
    assert!(changed);
    assert_eq!(high_score_of(&set), Some(value(50, 500, Some(600))));

    // At 700 the stored value is swept first; the incoming one, expired as it is,
    // comes in afresh and is echoed to nobody.
    let (reply, changed) = set.merge(&incoming, game(), RealmId::PublicDefault, at(700));
    assert!(changed);
    assert!(reply.unwrap().claims.is_empty());
    assert_eq!(high_score_of(&set), Some(value(50, 500, Some(600))));

    // The next merge, of nothing, sweeps it for good.
    let (reply, changed) = set.merge(&subset(700, &[]), game(), RealmId::PublicDefault, at(701));
    assert!(changed);
    assert!(reply.unwrap().claims.is_empty());
    assert!(set.is_empty());
}

#[test]
fn expired_claims_of_every_partition_leave_on_merge() {
    let realm = RealmId::Named(RealmName::new("castle"));
    let mut set = ClaimSet::default();
    let incoming = subset(
        100,
        &[
            (ScopeClaimKey::streak(), value(3, 100, Some(200))),
            (ScopeClaimKey::high_score(), value(9, 100, Some(300))),
            (ScopeClaimKey::product(ClaimScope::Realm, SkuId(NonZero64::new(7).unwrap())), value(1, 100, Some(250))),
            (ScopeClaimKey::rank(), value(2, 100, None)),
        ],
    );
    set.merge(&incoming, game(), realm, at(100));
    assert_eq!((set.global.len(), set.game.len(), set.realm.len()), (1, 2, 1));
    let (_, changed) = set.merge(&subset(100, &[]), game(), realm, at(260));
    assert!(changed);
    assert_eq!((set.global.len(), set.game.len(), set.realm.len()), (0, 2, 0));
    // An expiration at the very time of the merge is not yet past.
    let (_, changed) = set.merge(&subset(100, &[]), game(), realm, at(300));
    assert!(!changed);
    let (_, changed) = set.merge(&subset(100, &[]), game(), realm, at(301));
    assert!(changed);
    assert_eq!(set.game.len(), 1);
    assert_eq!(set.rank(game()), (2, Some(at(100))));
}

#[test]
fn merging_the_same_subset_twice_gives_the_same_set_and_no_new_echo() {
    let realm = RealmId::PublicDefault;
    let mut set = ClaimSet::default();
    set.merge(
        &subset(
            10,
            &[
                (ScopeClaimKey::high_score(), value(100, 10, None)),
                (ScopeClaimKey::rank(), value(3, 10, None)),
                (ScopeClaimKey::streak(), value(4, 10, None)),
            ],
        ),
        game(),
        realm,
        at(10),
    );
    let incoming = subset(
        20,
        &[
            (ScopeClaimKey::high_score(), value(80, 20, None)),
            (ScopeClaimKey::rank(), value(2, 20, None)),
            (ScopeClaimKey::days(), value(1, 20, None)),
        ],
    );
    let (first, changed) = set.merge(&incoming, game(), realm, at(20));
    let first = first.unwrap();
    assert!(changed);
    let once = set.subset(game(), realm);
    let (second, changed) = set.merge(&incoming, game(), realm, at(30));
    let second = second.unwrap();
    assert!(!changed);
    let twice = set.subset(game(), realm);
    assert_eq!(once.claims.len(), twice.claims.len());
    for i in 0..once.claims.len() {
        let (key, value) = once.claims.entry(i);
        assert_eq!(twice.claims.get(&key), Some(value));
    }
    // The high score differs from what was sent: it is echoed, both times. The
    // streak was not updated after the cutoff, and the rank was taken as sent.
    assert_eq!(first.claims.len(), 1);
    assert_eq!(second.claims.len(), 1);
    for i in 0..second.claims.len() {
        let (key, value) = second.claims.entry(i);
        assert_eq!(first.claims.get(&key), Some(value));
    }
    assert_eq!(second.claims.get(&ScopeClaimKey::high_score()), Some(value(100, 10, None)));
}

#[test]
fn sets_and_subsets_are_compared_by_what_they_hold() {
    let a = subset(5, &[(ScopeClaimKey::kills(), value(1, 2, None)), (ScopeClaimKey::days(), value(3, 4, None))]);
    let b = subset(5, &[(ScopeClaimKey::days(), value(3, 4, None)), (ScopeClaimKey::kills(), value(1, 2, None))]);
    assert!(a.same(&b) && b.same(&a));
    assert!(a.claims.within(&b.claims));
    assert!(!a.same(&subset(6, &[(ScopeClaimKey::kills(), value(1, 2, None)), (ScopeClaimKey::days(), value(3, 4, None))])));
    let less = subset(5, &[(ScopeClaimKey::days(), value(3, 4, None))]);
    assert!(less.claims.within(&a.claims) && !a.claims.within(&less.claims));
    assert!(!a.same(&less) && !less.same(&a));
    assert!(!a.same(&subset(5, &[(ScopeClaimKey::kills(), value(1, 2, None)), (ScopeClaimKey::days(), value(3, 5, None))])));
    let mut one = ClaimSet::default();
    let mut other = ClaimSet::default();
    assert!(one.same(&other));
    one.merge(&a, game(), RealmId::PublicDefault, at(1));
    assert!(!one.same(&other));
    other.merge(&b, game(), RealmId::PublicDefault, at(9));
    assert!(one.same(&other));
    other.merge(&a, GameId::new("kiomet"), RealmId::PublicDefault, at(9));
    assert!(!one.same(&other));
}

#[test]
fn claims_changed_since_the_cutoff_are_echoed() {
    let realm = RealmId::PublicDefault;
    let mut set = ClaimSet::default();
    set.merge(
        &subset(
            10,
            &[
                (ScopeClaimKey::streak(), value(4, 10, None)),
                (ScopeClaimKey::kills(), value(7, 50, None)),
            ],
        ),
        game(),
        realm,
        at(10),
    );
    // The cutoff is the earlier of the earliest update (60) and the time of
    // synchronization (40): kills, updated at 50, are news; the streak is not.
    let (reply, changed) = set.merge(
        &subset(40, &[(ScopeClaimKey::days(), value(1, 60, None))]),
        game(),
        realm,
        at(60),
    );
    let reply = reply.unwrap();
    assert!(changed);
    assert_eq!(reply.claims.len(), 1);
    assert_eq!(reply.claims.get(&ScopeClaimKey::kills()), Some(value(7, 50, None)));
    // With an update before everything the cutoff drops, and the streak is news too.
    let (reply, _) = set.merge(
        &subset(40, &[(ScopeClaimKey::days(), value(1, 5, None))]),
        game(),
        realm,
        at(60),
    );
    let reply = reply.unwrap();
    assert_eq!(reply.claims.len(), 3);
    assert_eq!(reply.claims.get(&ScopeClaimKey::days()), Some(value(1, 60, None)));
}

#[test]
fn claims_of_other_games_and_realms_are_not_seen() {
    let castle = RealmId::Named(RealmName::new("castle"));
    let tower = RealmId::Named(RealmName::new("tower"));
    let product = ScopeClaimKey::product(ClaimScope::Realm, SkuId(NonZero64::new(12).unwrap()));
    let mut set = ClaimSet::default();
    set.merge(
        &subset(10, &[(ScopeClaimKey::high_score(), value(5, 10, None)), (product, value(2, 10, None)), (ScopeClaimKey::streak(), value(1, 10, None))]),
        game(),
        castle,
        at(10),
    );
    assert_eq!(set.subset(game(), castle).claims.len(), 3);
    assert_eq!(set.subset(game(), tower).claims.len(), 2);
    assert_eq!(set.subset(GameId::new("kiomet"), castle).claims.len(), 1);
    assert_eq!(set.high_score(GameId::new("kiomet")), (0, None));
    let key = RealmClaimKey { realm_id: castle, key: GameClaimKey { game_id: game(), key: product.key } };
    assert_eq!(set.realm.get(&key), Some(value(2, 10, None)));
    let recent = set.filtered_subset(&ClaimFilter::UpdatedAfter(at(10)), Some(at(3)), game(), castle);
    assert!(recent.claims.is_empty());
    assert_eq!(recent.date_synchronized, at(3));
    let all = set.filtered_subset(&ClaimFilter::UpdatedAfter(at(9)), None, game(), castle);
    assert_eq!(all.claims.len(), 3);
    assert_eq!(all.date_synchronized, NonZeroUnixMillis::min_value());
}

#[test]
fn queries_default_to_zero() {
    let set = ClaimSet::default();
    assert!(set.is_empty());
    assert_eq!(set.high_score(game()), (0, None));
    assert_eq!(set.rank(game()), (0, None));
    assert_eq!(set.streak(), 0);
    assert_eq!(set.public_claims(game()), PublicClaims::default());
    assert_eq!(set.last_updated(), NonZeroUnixMillis::min_value());
}

#[test]
fn public_claims_show_high_score_rank_and_streak() {
    let mut set = ClaimSet::default();
    set.merge(
        &subset(
            10,
            &[
                (ScopeClaimKey::high_score(), value(100, 11, None)),
                (ScopeClaimKey::rank(), value(3, 12, None)),
                (ScopeClaimKey::streak(), value(4, 13, None)),
            ],
        ),
        game(),
        RealmId::PublicDefault,
        at(10),
    );
    assert_eq!(
        set.public_claims(game()),
        PublicClaims {
            date_high_score: Some(at(11)),
            date_rank: Some(at(12)),
            high_score: 100,
            rank: 3,
            streak: 4,
        }
    );
    assert_eq!(set.last_updated(), at(13));
    assert!(!set.is_empty());
}

#[test]
fn first_and_last_updated_of_a_subset() {
    let empty = ClaimSubset::default();
    assert_eq!(empty.first_updated(), NonZeroUnixMillis::max_value());
    assert_eq!(empty.last_updated(), NonZeroUnixMillis::min_value());
    assert_eq!(empty.date_synchronized, NonZeroUnixMillis::min_value());
    let some = subset(
        1,
        &[
            (ScopeClaimKey::kills(), value(1, 30, None)),
            (ScopeClaimKey::days(), value(1, 20, None)),
            (ScopeClaimKey::rank(), value(1, 40, None)),
        ],
    );
    assert_eq!(some.first_updated(), at(20));
    assert_eq!(some.last_updated(), at(40));
}

#[test]
fn well_known_keys() {
    let expected = [
        (ScopeClaimKey::high_score(), "Game/high_score/Max"),
        (ScopeClaimKey::rank(), "Game/rank/New"),
        (ScopeClaimKey::streak(), "Global/streak/Max"),
        (ScopeClaimKey::days(), "Game/days/Max"),
        (ScopeClaimKey::kills(), "Game/kills/Max"),
        (ScopeClaimKey::superior_kills(), "Game/superior_kills/Max"),
        (ScopeClaimKey::inferior_kills(), "Game/inferior_kills/Max"),
        (ScopeClaimKey::victories(), "Game/victories/Max"),
        (ScopeClaimKey::superior_victories(), "Game/superior_victories/Max"),
        (ScopeClaimKey::inferior_victories(), "Game/inferior_victories/Max"),
        (ScopeClaimKey::announcement_preference(), "Global/announcement_preference/New"),
        (
            ScopeClaimKey::product(ClaimScope::Global, SkuId(NonZero64::new(u64::MAX).unwrap())),
            "Global/product_18446744073709551615/Max",
        ),
    ];
    for (key, text) in expected {
        assert_eq!(key.to_string(), text);
        assert_eq!(ScopeClaimKey::from_str(text).ok(), Some(key));
    }
}

#[test]
fn claim_map_holds_each_key_once() {
    let mut set = ClaimSet::default();
    let name = ClaimName::new("x");
    let key = ClaimKey { name, aggregation: ClaimAggregation::Min };
    assert_eq!(set.global.insert(key, value(1, 1, None)), None);
    assert_eq!(set.global.insert(key, value(2, 2, None)), Some(value(1, 1, None)));
    assert_eq!(set.global.len(), 1);
    assert!(set.global.contains_key(&key));
    let other = ClaimKey { name, aggregation: ClaimAggregation::Max };
    assert!(!set.global.contains_key(&other));
    assert_eq!(set.global.remove(&other), None);
    assert_eq!(set.global.remove(&key), Some(value(2, 2, None)));
    assert!(set.global.is_empty());
    let copy = set.global.clone();
    assert!(copy.is_empty());
}
