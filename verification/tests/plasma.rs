use plasma_protocol::{
    ArenaId, CohortId, InstanceNumber, LeaderboardScoreDto, PlayerAlias, QuestState, RealmAcl,
    RealmId, RealmName, RealmUseTopology, RegionId, SceneId, SceneUseTopology, ServerUseTopology,
    TierNumber,
};

fn scene(n: u8) -> SceneId {
    SceneId::new(None, InstanceNumber::new(n))
}

fn realm(scenes: &[(u8, u16)]) -> RealmUseTopology {
    RealmUseTopology {
        acl: RealmAcl::default(),
        scenes: scenes
            .iter()
            .map(|&(n, player_count)| (scene(n), SceneUseTopology { player_count, settings: None }))
            .collect(),
    }
}

#[test]
fn topology_lookups() {
    let castle = RealmId::Named(RealmName::new("castle"));
    let tower = RealmId::Named(RealmName::new("tower"));
    let topology = ServerUseTopology {
        datacenter: String::new(),
        default_realm: Some(realm(&[(0, 10), (1, 11)])),
        other_realms: vec![(castle, realm(&[(0, 20)])), (tower, realm(&[]))],
        region_id: RegionId::Europe,
    };
    assert_eq!(topology.realm(RealmId::PublicDefault).unwrap().scenes.len(), 2);
    assert_eq!(topology.realm(castle).unwrap().scenes.len(), 1);
    assert_eq!(topology.realm(tower).unwrap().scenes.len(), 0);
    assert!(topology.realm(RealmId::Named(RealmName::new("moat"))).is_none());
    assert_eq!(topology.arena(ArenaId::new(RealmId::PublicDefault, scene(1))).unwrap().player_count, 11);
    assert_eq!(topology.arena(ArenaId::new(castle, scene(0))).unwrap().player_count, 20);
    assert!(topology.arena(ArenaId::new(castle, scene(1))).is_none());
    assert!(topology.arena(ArenaId::new(castle, SceneId::new(TierNumber::new(1), InstanceNumber::new(0)))).is_none());
    let realms: Vec<RealmId> = topology.realms().into_iter().map(|(id, _)| id).collect();
    assert_eq!(realms, vec![RealmId::PublicDefault, castle, tower]);
    let arenas: Vec<(ArenaId, u16)> = topology.arenas().into_iter().map(|(id, s)| (id, s.player_count)).collect();
    assert_eq!(
        arenas,
        vec![
            (ArenaId::new(RealmId::PublicDefault, scene(0)), 10),
            (ArenaId::new(RealmId::PublicDefault, scene(1)), 11),
            (ArenaId::new(castle, scene(0)), 20),
        ]
    );
    let bare = ServerUseTopology {
        datacenter: String::new(),
        default_realm: None,
        other_realms: Vec::new(),
        region_id: RegionId::Asia,
    };
    assert!(bare.realm(RealmId::PublicDefault).is_none());
    assert!(bare.realms().is_empty() && bare.arenas().is_empty());
}

#[test]
fn leaderboard_lines_are_ordered_by_score_then_alias() {
    let line = |alias: &str, score: u32| LeaderboardScoreDto { alias: PlayerAlias::new_unsanitized(alias), score };
    assert!(line("zed", 1).is_below(&line("amy", 2)));
    assert!(!line("amy", 2).is_below(&line("zed", 1)));
    assert!(line("amy", 2).is_below(&line("zed", 2)));
    assert!(line("am", 2).is_below(&line("amy", 2)));
    assert!(!line("amy", 2).is_below(&line("amy", 2)));
    assert!(line("Zed", 2).is_below(&line("amy", 2)));
    assert!(line("amy", 2).same(&line("amy", 2)));
    assert!(!line("amy", 2).same(&line("amy", 3)));
    assert_eq!(QuestState::default(), QuestState::Spawning {});
}

#[test]
fn cohorts_from_drawn_places() {
    assert_eq!(CohortId::weights(), [8, 4, 2, 1]);
    for place in 0..4 {
        assert_eq!(CohortId::from_weighted_index(place).0.get() as usize, place + 1);
    }
    assert_eq!(CohortId::from_weighted_index(4), CohortId::default());
}
