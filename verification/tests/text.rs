use plasma_protocol::nonzero::NonZero64;
use plasma_protocol::{
    split_once_nth, ClaimAggregation, ClaimKey, ClaimKeyError, ClaimName, ClaimNameError,
    ClaimScope, ClaimValue, ClaimValueError, GameClaimKey, GameClaimKeyError, GameId,
    InvalidGameId, InvalidRealmId, InvitationId, NonZeroUnixMillis, NumberError, RealmClaimKey,
    RealmClaimKeyError, RealmId, RealmName, ScopeClaimKey, ScopeClaimKeyError, ServerNumber,
    SkuId, VariantNotFound,
};

fn at(millis: u64) -> NonZeroUnixMillis {
    NonZeroUnixMillis::new(millis).unwrap()
}

fn key(name: &str, aggregation: ClaimAggregation) -> ClaimKey {
    ClaimKey { name: ClaimName::new(name), aggregation }
}

#[test]
fn claim_value_text() {
    let plain = ClaimValue { value: 42, date_updated: at(1700000000000), date_expires: None };
    assert_eq!(plain.to_string(), "42/1700000000000");
    assert_eq!(ClaimValue::from_str("42/1700000000000"), Ok(plain));
    let expiring = ClaimValue { value: 0, date_updated: at(1), date_expires: Some(at(u64::MAX)) };
    assert_eq!(expiring.to_string(), "0/1/18446744073709551615");
    assert_eq!(ClaimValue::from_str(&expiring.to_string()), Ok(expiring));
    assert_eq!(ClaimValue::from_str("+42/+7/+8"), Ok(ClaimValue { value: 42, date_updated: at(7), date_expires: Some(at(8)) }));
}

#[test]
fn claim_value_records() {
    let plain = ClaimValue { value: 42, date_updated: at(0x0102), date_expires: None };
    let bytes = plain.to_bytes();
    assert_eq!(
        bytes,
        vec![42, 0, 0, 0, 0, 0, 0, 0, 2, 1, 0, 0, 0, 0, 0, 0, 0, 0, 0, 0, 0, 0, 0, 0]
    );
    assert_eq!(ClaimValue::from_bytes(&bytes), Some(plain));
    let expiring = ClaimValue { value: u64::MAX, date_updated: at(1), date_expires: Some(at(u64::MAX)) };
    assert_eq!(ClaimValue::from_bytes(&expiring.to_bytes()), Some(expiring));
    assert_eq!(ClaimValue::from_bytes(&bytes[..23]), None);
    assert_eq!(ClaimValue::from_bytes(&[0; 24]), None);
    assert_eq!(ClaimValue::from_bytes(&[0; 25]), None);
    assert_eq!(ClaimValue::from_bytes(&[]), None);
}

#[test]
fn claim_value_errors() {
    assert_eq!(ClaimValue::from_str("42"), Err(ClaimValueError::MissingSlash));
    assert_eq!(ClaimValue::from_str(""), Err(ClaimValueError::MissingSlash));
    assert_eq!(ClaimValue::from_str("/7"), Err(ClaimValueError::Value(NumberError::Empty)));
    assert_eq!(ClaimValue::from_str("x/7"), Err(ClaimValueError::Value(NumberError::InvalidDigit)));
    assert_eq!(
        ClaimValue::from_str("18446744073709551616/7"),
        Err(ClaimValueError::Value(NumberError::PosOverflow))
    );
    assert_eq!(ClaimValue::from_str("1/0"), Err(ClaimValueError::Updated(NumberError::Zero)));
    assert_eq!(ClaimValue::from_str("1/"), Err(ClaimValueError::Updated(NumberError::Empty)));
    assert_eq!(ClaimValue::from_str("1/2/"), Err(ClaimValueError::Expiration(NumberError::Empty)));
    assert_eq!(ClaimValue::from_str("1/2/3/4"), Err(ClaimValueError::Expiration(NumberError::InvalidDigit)));
    // The magnitude is looked at before the times.
    assert_eq!(ClaimValue::from_str("x/0/0"), Err(ClaimValueError::Value(NumberError::InvalidDigit)));
    assert_eq!(ClaimValue::from_str("1/0/0"), Err(ClaimValueError::Updated(NumberError::Zero)));
}

#[test]
fn claim_key_text() {
    let high_score = key("high_score", ClaimAggregation::Max);
    assert_eq!(high_score.to_string(), "high_score/Max");
    assert_eq!(ClaimKey::from_str("high_score/Max"), Ok(high_score));
    // The name may hold slashes: the key is parted at the last one.
    let nested = key("a/b", ClaimAggregation::New);
    assert_eq!(ClaimKey::from_str(&nested.to_string()), Ok(nested));
    assert_eq!(ClaimKey::from_str("/Min"), Ok(key("", ClaimAggregation::Min)));
    assert_eq!(ClaimKey::from_str("high_score"), Err(ClaimKeyError::MissingSlash));
    assert_eq!(ClaimKey::from_str("high_score/max"), Err(ClaimKeyError::Aggregation(VariantNotFound)));
    assert_eq!(
        ClaimKey::from_str("twenty_nine_characters_long__/Max"),
        Err(ClaimKeyError::Name(ClaimNameError))
    );
    assert!(ClaimKey::from_str("twenty_eight_characters_long/Max").is_ok());
    assert_eq!(
        ClaimKey::from_str("twenty_nine_characters_long__/max"),
        Err(ClaimKeyError::Name(ClaimNameError))
    );
    assert!(high_score.same(&ScopeClaimKey::high_score().key));
    assert!(!high_score.same(&key("high_score", ClaimAggregation::Min)));
    assert!(!high_score.same(&key("high_scor", ClaimAggregation::Max)));
    assert_eq!(ClaimAggregation::default(), ClaimAggregation::New);
    assert_eq!(ClaimAggregation::Min.to_string(), "Min");
}

#[test]
fn game_claim_key_text() {
    let k = GameClaimKey { game_id: GameId::new("mk48"), key: key("high_score", ClaimAggregation::Max) };
    assert_eq!(k.to_string(), "mk48/high_score/Max");
    assert_eq!(GameClaimKey::from_str("mk48/high_score/Max"), Ok(k));
    assert_eq!(GameClaimKey::from_str("mk48"), Err(GameClaimKeyError::MissingSlash));
    assert_eq!(
        GameClaimKey::from_str("thirteenchars/high_score/Max"),
        Err(GameClaimKeyError::GameId(InvalidGameId))
    );
    assert_eq!(
        GameClaimKey::from_str("mk48/high_score"),
        Err(GameClaimKeyError::Key(ClaimKeyError::MissingSlash))
    );
}

#[test]
fn realm_claim_key_text() {
    let game_key = GameClaimKey { game_id: GameId::new("mk48"), key: key("high_score", ClaimAggregation::Max) };
    let public = RealmClaimKey { realm_id: RealmId::PublicDefault, key: game_key };
    assert_eq!(public.to_string(), "public/default/mk48/high_score/Max");
    assert_eq!(RealmClaimKey::from_str("public/default/mk48/high_score/Max"), Ok(public));
    let named = RealmClaimKey { realm_id: RealmId::Named(RealmName::new("castle")), key: game_key };
    assert_eq!(RealmClaimKey::from_str(&named.to_string()), Ok(named));
    let temporary = RealmClaimKey {
        realm_id: RealmId::Temporary(InvitationId { server_number: ServerNumber::new(4).unwrap(), number: 99 }),
        key: game_key,
    };
    assert_eq!(RealmClaimKey::from_str(&temporary.to_string()), Ok(temporary));
    assert_eq!(RealmClaimKey::from_str("public"), Err(RealmClaimKeyError::MissingSlash));
    assert_eq!(RealmClaimKey::from_str("public/default"), Err(RealmClaimKeyError::MissingSlash));
    assert_eq!(
        RealmClaimKey::from_str("public/elsewhere/mk48/high_score/Max"),
        Err(RealmClaimKeyError::RealmId(InvalidRealmId::Prefix))
    );
    assert_eq!(
        RealmClaimKey::from_str("public/default/mk48"),
        Err(RealmClaimKeyError::Key(GameClaimKeyError::MissingSlash))
    );
}

#[test]
fn scope_claim_key_text() {
    let k = ScopeClaimKey { scope: ClaimScope::Game, key: key("high_score", ClaimAggregation::Max) };
    assert_eq!(k.to_string(), "Game/high_score/Max");
    assert_eq!(ScopeClaimKey::from_str("Game/high_score/Max"), Ok(k));
    for scope in [ClaimScope::Global, ClaimScope::Game, ClaimScope::Realm] {
        let k = ScopeClaimKey::product(scope, SkuId(NonZero64::new(5).unwrap()));
        assert_eq!(k.key.name.as_str(), "product_5");
        assert_eq!(ScopeClaimKey::from_str(&k.to_string()), Ok(k));
        assert_eq!(ClaimScope::from_str(&scope.to_string()), Ok(scope));
    }
    assert_eq!(ScopeClaimKey::from_str("Game"), Err(ScopeClaimKeyError::MissingSlash));
    assert_eq!(ScopeClaimKey::from_str("Galaxy/x/Max"), Err(ScopeClaimKeyError::Scope(VariantNotFound)));
    assert_eq!(
        ScopeClaimKey::from_str("Game/x"),
        Err(ScopeClaimKeyError::Key(ClaimKeyError::MissingSlash))
    );
}

#[test]
fn split_at_nth_occurrence() {
    assert_eq!(split_once_nth("a/b/c/d", '/', 0), Some(("a", "b/c/d")));
    assert_eq!(split_once_nth("a/b/c/d", '/', 1), Some(("a/b", "c/d")));
    assert_eq!(split_once_nth("a/b/c/d", '/', 2), Some(("a/b/c", "d")));
    assert_eq!(split_once_nth("a/b/c/d", '/', 3), None);
    assert_eq!(split_once_nth("/", '/', 0), Some(("", "")));
    assert_eq!(split_once_nth("\u{e9}/\u{e9}", '/', 0), Some(("\u{e9}", "\u{e9}")));
    assert_eq!(split_once_nth("", '/', 0), None);
}
