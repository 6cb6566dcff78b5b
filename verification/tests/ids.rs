use plasma_protocol::nonzero::{NonZero16, NonZero32, NonZero64, NonZero8};
use plasma_protocol::{
    ArenaId, ArenaQuery, ArenaToken, ChatId, CohortId, GameId, InstanceNumber, InvalidArenaId,
    InvalidChatId, InvalidInvitationId, InvalidRealmId, InvalidRealmName, InvalidSceneId,
    InvalidServerId, InvalidTierNumber, InvitationId, LanguageId, LifecycleId, NonZeroUnixMillis,
    NumberError, PeriodId, PlayerId, RankNumber, RealmId, RealmName, ReconnectionToken, RegionId,
    SceneId, ServerId, ServerKind, ServerNumber, TierNumber, UserAgentId, VariantNotFound,
};

#[test]
fn chat_id() {
    let example = "714974570605@Cloud/8/public/default/0";
    let _chat_id = ChatId::from_str(example).unwrap();
}

#[test]
fn invite_encode_decode() {
    for n in [1, 123, 12345] {
        let id = InvitationId {
            server_number: ServerNumber::new(n as u8 % 10).unwrap(),
            number: n,
        };
        let code = id.to_string();
        println!("invite {n} -> {}", code);
        assert_eq!(id, InvitationId::from_str(&code).unwrap());
    }
}

#[test]
fn player_id() {
    for i in 0..u16::MAX as usize * 2 {
        if let Some(bot) = PlayerId::nth_bot(i) {
            assert!(bot.is_bot());
        }
        if let Some(bot) = PlayerId::nth_client(i) {
            assert!(bot.is_client());
        }
    }
}

#[test]
fn player_id_numbers() {
    assert_eq!(PlayerId::nth_client(0).unwrap().0.get(), 1);
    assert_eq!(PlayerId::nth_client(32767).unwrap().0.get(), 65535);
    assert_eq!(PlayerId::nth_client(32768), None);
    assert_eq!(PlayerId::nth_bot(0).unwrap().0.get(), 2);
    assert_eq!(PlayerId::nth_bot(32766).unwrap().0.get(), 65534);
    assert_eq!(PlayerId::nth_bot(32767), None);
    let client = PlayerId(NonZero16::new(7).unwrap());
    assert_eq!(client.client_number(), Some(3));
    assert_eq!(client.bot_number(), None);
    let bot = PlayerId(NonZero16::new(8).unwrap());
    assert_eq!(bot.bot_number(), Some(3));
    assert_eq!(bot.client_number(), None);
}

#[test]
fn chat_id_text() {
    let example = "714974570605@Cloud/8/public/default/0";
    let id = ChatId::from_str(example).unwrap();
    assert_eq!(id.message_id, NonZeroUnixMillis::new(714974570605).unwrap());
    assert_eq!(id.server_id, ServerId { kind: ServerKind::Cloud, number: ServerNumber::new(8).unwrap() });
    assert_eq!(id.arena_id, ArenaId::default());
    assert_eq!(id.to_string(), example);
    assert_eq!(ChatId::from_str("5"), Err(InvalidChatId::MissingAtSign));
    assert_eq!(ChatId::from_str("0@Cloud/8/public/default/0"), Err(InvalidChatId::InvalidMessageId));
    assert_eq!(ChatId::from_str("5@Cloud/8"), Err(InvalidChatId::MissingSlash));
    assert_eq!(ChatId::from_str("5@Sky/8/public/default/0"), Err(InvalidChatId::InvalidServerId));
    assert_eq!(ChatId::from_str("5@Cloud/8/public/elsewhere/0"), Err(InvalidChatId::InvalidArenaId));
    let stamp = ChatId::timestamp(NonZeroUnixMillis::new(9).unwrap());
    assert_eq!(stamp.to_string(), "9@Cloud/1/public/default/0");
}

#[test]
fn invitation_codes() {
    let id = InvitationId { server_number: ServerNumber::new(1).unwrap(), number: 0 };
    // 0x010000: the digits, lowest first, are 0 0 0 0 1 0, each moved on by its place.
    assert_eq!(id.to_string(), "CDFHKK");
    assert_eq!(InvitationId::from_str("CDFHKK"), Ok(id));
    assert_eq!(id.server_number(), ServerNumber::new(1).unwrap());
    let last = InvitationId { server_number: ServerNumber::new(255).unwrap(), number: u16::MAX };
    assert_eq!(InvitationId::from_str(&last.to_string()), Ok(last));
    assert_eq!(InvitationId::from_str("CDFHK"), Err(InvalidInvitationId::Length));
    assert_eq!(InvitationId::from_str("CDFHKKK"), Err(InvalidInvitationId::Length));
    assert_eq!(InvitationId::from_str("CDFHKA"), Err(InvalidInvitationId::Character));
    assert_eq!(InvitationId::from_str("\u{e9}\u{e9}\u{e9}"), Err(InvalidInvitationId::Character));
    assert_eq!(InvitationId::from_str("CDFHJK"), Err(InvalidInvitationId::ZeroServerNumber));
    let made = InvitationId::generate(ServerNumber::new(9).unwrap());
    assert_eq!(made.server_number, ServerNumber::new(9).unwrap());
    assert_eq!(InvitationId::from_str(&made.to_string()), Ok(made));
}

#[test]
fn realm_id_text() {
    let named = RealmId::Named(RealmName::new("castle"));
    let temporary = RealmId::Temporary(InvitationId { server_number: ServerNumber::new(3).unwrap(), number: 258 });
    for id in [RealmId::PublicDefault, named, temporary] {
        assert_eq!(RealmId::from_str(&id.to_string()), Ok(id));
    }
    assert_eq!(RealmId::PublicDefault.to_string(), "public/default");
    assert_eq!(named.to_string(), "named/castle");
    assert_eq!(RealmId::from_str("public"), Err(InvalidRealmId::MissingSlash));
    assert_eq!(RealmId::from_str("private/x"), Err(InvalidRealmId::Prefix));
    assert_eq!(RealmId::from_str("named/www"), Err(InvalidRealmId::InvalidRealmName(InvalidRealmName::Www)));
    assert_eq!(
        RealmId::from_str("named/thirteenchars"),
        Err(InvalidRealmId::InvalidRealmName(InvalidRealmName::TooLong))
    );
    assert_eq!(
        RealmId::from_str("temporary/x"),
        Err(InvalidRealmId::InvalidTemporaryRealmInvitationId(InvalidInvitationId::Length))
    );
    assert_eq!(RealmId::from_opt(None), RealmId::PublicDefault);
    assert_eq!(RealmId::from_opt(Some(named)), named);
    assert_eq!(RealmId::PublicDefault.into_opt(), None);
    assert_eq!(named.into_opt(), Some(named));
    assert!(RealmId::PublicDefault.is_public_default() && named.is_named() && temporary.is_temporary());
    assert_eq!(named.temporary(), None);
    assert!(temporary.temporary().is_some());
    assert!(named.same(&RealmId::Named(RealmName::from_str("castle").unwrap())));
    assert!(!named.same(&RealmId::Named(RealmName::new("tower"))));
    assert_eq!(RealmName::new("thirteenchars").as_str(), "thirteenchar");
    assert_eq!(RealmName::new("\u{e9}\u{e9}\u{e9}\u{e9}\u{e9}\u{e9}x").as_str(), "\u{e9}\u{e9}\u{e9}\u{e9}\u{e9}\u{e9}");
    assert_eq!(RealmName::new("12345678901\u{e9}").as_str(), "12345678901");
}

#[test]
fn server_id_text() {
    let id = ServerId { kind: ServerKind::Local, number: ServerNumber::new(255).unwrap() };
    assert_eq!(id.to_string(), "Local/255");
    assert_eq!(ServerId::from_str("Local/255"), Ok(id));
    assert_eq!(ServerId::from_str("Local"), Err(InvalidServerId::MissingSlash));
    assert_eq!(ServerId::from_str("local/1"), Err(InvalidServerId::InvalidKind));
    assert_eq!(ServerId::from_str("Cloud/0"), Err(InvalidServerId::InvalidNumber));
    assert_eq!(ServerId::from_str("Cloud/256"), Err(InvalidServerId::InvalidNumber));
    assert_eq!(id.cloud_server_number(), None);
    let cloud = ServerId { kind: ServerKind::Cloud, number: id.number };
    assert_eq!(cloud.cloud_server_number(), Some(id.number));
    assert!(ServerKind::Cloud.is_cloud() && !ServerKind::Cloud.is_local());
    assert!(ServerKind::Local.is_local() && !ServerKind::Local.is_cloud());
    assert_eq!(ServerKind::from_str("Clou"), Err(VariantNotFound));
    assert_eq!(ServerNumber::new(0), None);
}

#[test]
fn numbers_as_text() {
    assert_eq!(NonZero8::from_str("255").map(|n| n.get()), Ok(255));
    assert_eq!(NonZero8::from_str("+7").map(|n| n.get()), Ok(7));
    assert_eq!(NonZero8::from_str("007").map(|n| n.get()), Ok(7));
    assert_eq!(NonZero8::from_str("256"), Err(NumberError::PosOverflow));
    assert_eq!(NonZero8::from_str(""), Err(NumberError::Empty));
    assert_eq!(NonZero8::from_str("+"), Err(NumberError::InvalidDigit));
    assert_eq!(NonZero8::from_str("-1"), Err(NumberError::InvalidDigit));
    assert_eq!(NonZero8::from_str("1x"), Err(NumberError::InvalidDigit));
    assert_eq!(NonZero8::from_str("999x"), Err(NumberError::PosOverflow));
    assert_eq!(NonZero8::from_str("0"), Err(NumberError::Zero));
    assert_eq!(NonZero16::from_str("65535").map(|n| n.get()), Ok(65535));
    assert_eq!(NonZero16::from_str("65536"), Err(NumberError::PosOverflow));
    assert_eq!(NonZero32::from_str("4294967295").map(|n| n.get()), Ok(u32::MAX));
    assert_eq!(NonZero32::from_str("4294967296"), Err(NumberError::PosOverflow));
    assert_eq!(NonZero64::from_str("18446744073709551615").map(|n| n.get()), Ok(u64::MAX));
    assert_eq!(NonZero64::from_str("18446744073709551616"), Err(NumberError::PosOverflow));
    assert_eq!(NonZero64::new(u64::MAX).unwrap().to_string(), "18446744073709551615");
    assert_eq!(NonZero8::new(10).unwrap().to_string(), "10");
    assert_eq!(NonZeroUnixMillis::from_str("0"), Err(NumberError::Zero));
    assert_eq!(NonZeroUnixMillis::new(0), None);
    assert_eq!(NonZeroUnixMillis::max_value().get(), u64::MAX);
    assert_eq!(NonZeroUnixMillis::min_value().get(), 1);
    assert_eq!(ArenaToken::from_str("12").map(|t| t.to_string()), Ok("12".to_string()));
}

#[test]
fn scene_id_text() {
    let plain = SceneId::new(None, InstanceNumber::new(0));
    assert_eq!(plain, SceneId::default());
    assert_eq!(plain.to_string(), "0");
    let tiered = SceneId::new(TierNumber::new(2), InstanceNumber::new(17));
    assert_eq!(tiered.to_string(), "B17");
    assert_eq!(SceneId::from_str("B17"), Ok(tiered));
    assert_eq!(SceneId::from_str("B"), Ok(SceneId::new(TierNumber::new(2), InstanceNumber::new(0))));
    assert_eq!(SceneId::from_str("255"), Ok(SceneId::new(None, InstanceNumber::new(255))));
    assert_eq!(SceneId::from_str(""), Err(InvalidSceneId::Empty));
    assert_eq!(SceneId::from_str("256"), Err(InvalidSceneId::InvalidInstanceNumber));
    assert_eq!(SceneId::from_str("b1"), Err(InvalidSceneId::InvalidInstanceNumber));
    assert_eq!(TierNumber::new(0), None);
    assert_eq!(TierNumber::new(1).unwrap().to_string(), "A");
    assert_eq!(TierNumber::new(26).unwrap().to_string(), "Z");
    assert_eq!(TierNumber::new(200).unwrap().to_string(), "Z");
    assert_eq!(TierNumber::from_str("Z"), Ok(TierNumber::new(26).unwrap()));
    assert_eq!(TierNumber::from_str("a"), Err(InvalidTierNumber));
    assert_eq!(TierNumber::from_str("AB"), Err(InvalidTierNumber));
    assert_eq!(TierNumber::from_str(""), Err(InvalidTierNumber));
}

#[test]
fn arena_id_and_query_text() {
    let arena = ArenaId::new(RealmId::Named(RealmName::new("12")), SceneId::new(TierNumber::new(1), InstanceNumber::new(3)));
    assert_eq!(arena.to_string(), "named/12/A3");
    assert_eq!(ArenaId::from_str("named/12/A3"), Ok(arena));
    assert_eq!(ArenaId::from_str("A3"), Err(InvalidArenaId::MissingSlash));
    assert_eq!(ArenaId::from_str("x/A3"), Err(InvalidArenaId::InvalidRealmId(InvalidRealmId::MissingSlash)));
    assert_eq!(ArenaId::from_str("public/default/"), Err(InvalidArenaId::InvalidSceneId(InvalidSceneId::Empty)));
    let player = PlayerId(NonZero16::new(5).unwrap());
    let token = ReconnectionToken(NonZero32::new(77).unwrap());
    let invitation = InvitationId { server_number: ServerNumber::new(2).unwrap(), number: 3 };
    let queries = [
        ArenaQuery::Specific(arena, None),
        ArenaQuery::Specific(arena, Some((player, token))),
        ArenaQuery::Specific(ArenaId::default(), None),
        ArenaQuery::AnyInstance(RealmId::PublicDefault, TierNumber::new(4)),
        ArenaQuery::AnyInstance(RealmId::PublicDefault, None),
        ArenaQuery::NewTemporary,
        ArenaQuery::Invitation(invitation),
    ];
    for query in queries {
        assert_eq!(ArenaQuery::from_str(&query.to_string()), Ok(query));
    }
    assert_eq!(queries[1].to_string(), "named/12/A3/5/77");
    assert_eq!(queries[3].to_string(), "public/default/D0?");
    assert_eq!(queries[5].to_string(), "temporary");
    assert_eq!(ArenaQuery::default(), queries[4]);
    assert_eq!(
        ArenaQuery::from_str("public/default/1?"),
        Err(InvalidArenaId::InvalidSceneId(InvalidSceneId::InvalidInstanceNumber))
    );
    assert_eq!(ArenaQuery::from_str("invite/XX"), Err(InvalidArenaId::InvalidRealmId(InvalidRealmId::Prefix)));
    assert_eq!(queries[1].player_id(), Some(player));
    assert_eq!(queries[0].player_id(), None);
    assert_eq!(queries[1].player_id_reconnection_token(), Some((player, token)));
    assert_eq!(queries[0].specific(), Some(arena));
    assert!(queries[0].is_specific() && !queries[3].is_specific());
    assert_eq!(queries[3].any_instance(), Some((RealmId::PublicDefault, TierNumber::new(4))));
    assert!(queries[3].is_any_instance() && queries[5].is_new_temporary());
    assert_eq!(queries[6].invitation_id(), Some(invitation));
    assert!(queries[6].is_invitation_id() && !queries[5].is_invitation_id());
    assert_eq!(queries[0].realm_id(), Some(arena.realm_id));
    assert_eq!(queries[3].realm_id(), Some(RealmId::PublicDefault));
    assert_eq!(queries[5].realm_id(), None);
}

#[test]
fn ranks_languages_cohorts() {
    for n in 1..=6u8 {
        let rank = RankNumber::new(n).unwrap();
        assert_eq!(rank.get(), n);
        assert_eq!(rank.get_non_zero().get(), n);
        assert_eq!(RankNumber::from_str(rank.as_str()), Ok(rank));
    }
    assert_eq!(RankNumber::new(0), None);
    assert_eq!(RankNumber::new(7), None);
    assert_eq!(RankNumber::Rank4.to_string(), "IV");
    assert_eq!(RankNumber::MAX, RankNumber::Rank6);
    assert!(RankNumber::from_str("VII").is_err());
    assert_eq!(LanguageId::default().as_str(), "en");
    assert_eq!(LanguageId::new("zh-TW").to_string(), "zh-TW");
    assert!(LanguageId::from_str("thirteenchars").is_err());
    assert!(LanguageId::new("de").same(&LanguageId::from_str("de").unwrap()));
    assert_eq!(CohortId::default().0.get(), 1);
    assert_eq!(CohortId::new(0), None);
    assert_eq!(CohortId::new(5), None);
    assert_eq!(CohortId::iter().iter().map(|c| c.0.get()).collect::<Vec<_>>(), vec![1, 2, 3, 4]);
    assert_eq!(GameId::new("Mk48").to_string(), "Mk48");
    assert!(GameId::from_str("thirteenchars").is_err());
}

#[test]
fn metric_ids() {
    assert!(LifecycleId::New.is_new() && !LifecycleId::New.is_renewed());
    assert!(LifecycleId::Renewed.is_renewed() && !LifecycleId::Renewed.is_new());
    assert_eq!(LifecycleId::from_str("Renewed"), Ok(LifecycleId::Renewed));
    assert_eq!(LifecycleId::from_str("renewed"), Err(VariantNotFound));
    assert_eq!(LifecycleId::iter(), vec![LifecycleId::New, LifecycleId::Renewed]);
    assert_eq!(PeriodId::VARIANT_COUNT, 3);
    assert_eq!(PeriodId::iter(), vec![PeriodId::AllTime, PeriodId::Daily, PeriodId::Weekly]);
    assert_eq!(PeriodId::from_index(2), PeriodId::Weekly);
    assert_eq!(PeriodId::from_str("Daily"), Ok(PeriodId::Daily));
    assert_eq!(RegionId::default(), RegionId::NorthAmerica);
    assert_eq!(RegionId::iter().len(), 6);
    for a in RegionId::iter() {
        assert_eq!(RegionId::from_str(&a.to_string()), Ok(a));
        for b in RegionId::iter() {
            assert_eq!(a.distance(b) == 0, a == b);
            assert!(a.distance(b) <= 3);
        }
    }
    assert_eq!(RegionId::Africa.distance(RegionId::NorthAmerica), 2);
    assert_eq!(RegionId::NorthAmerica.distance(RegionId::Africa), 3);
    assert_eq!(RegionId::Oceania.distance(RegionId::Asia), 1);
    assert_eq!(RegionId::SouthAmerica.to_string(), "SouthAmerica");
    assert_eq!(UserAgentId::iter().len(), 8);
    assert_eq!(UserAgentId::DesktopFirefox.to_string(), "DesktopFirefox");
}
