use crate::ids::arena::{ArenaId, ArenaIdView};
use crate::ids::metrics::RegionId;
use crate::ids::realm::{RealmId, RealmIdView};
use crate::ids::scene::SceneId;
use crate::plasma::dto::RealmAcl;
use vstd::prelude::*;

verus! {

/// `serde_json::Value`: settings as JSON, carried along and never read.
#[verifier::external_type_specification]
#[verifier::external_body]
pub struct ExJsonValue(serde_json::Value);

/// A scene of a realm as the topology knows it. A scene that is taken out of the
/// topology is closed to players who come new, though its arena may live on for
/// a while on the server.
pub struct SceneUseTopology {
    /// How many players the server last told of.
    pub player_count: u16,
    /// The settings of the scene, as JSON.
    pub settings: Option<serde_json::Value>,
}

/// A realm as the topology knows it: arenas that share a chat. The list holds
/// each scene once.
pub struct RealmUseTopology {
    pub acl: RealmAcl,
    pub scenes: Vec<(SceneId, SceneUseTopology)>,
}

/// What a server is used for: its realms and their scenes. The list holds each
/// realm once, and never the public default realm.
pub struct ServerUseTopology {
    pub datacenter: String,
    /// The public default realm.
    pub default_realm: Option<RealmUseTopology>,
    pub other_realms: Vec<(RealmId, RealmUseTopology)>,
    /// The continent where the server stands.
    pub region_id: RegionId,
}

/// The first place of a list of scenes that holds the given scene.
pub open spec fn scene_place(scenes: Seq<(SceneId, SceneUseTopology)>, scene_id: SceneId) -> Option<
    int,
>
    decreases scenes.len(),
{
    if scenes.len() == 0 {
        None
    } else if scenes[0].0 == scene_id {
        Some(0)
    } else {
        match scene_place(scenes.drop_first(), scene_id) {
            Some(i) => Some(i + 1),
            None => None,
        }
    }
}

/// The first place of a list of realms that holds the given realm.
pub open spec fn realm_place(realms: Seq<(RealmId, RealmUseTopology)>, realm_id: RealmIdView) -> Option<
    int,
>
    decreases realms.len(),
{
    if realms.len() == 0 {
        None
    } else if realms[0].0@ == realm_id {
        Some(0)
    } else {
        match realm_place(realms.drop_first(), realm_id) {
            Some(i) => Some(i + 1),
            None => None,
        }
    }
}

impl RealmUseTopology {
    /// What the realm holds for a scene.
    pub open spec fn scene_of(&self, scene_id: SceneId) -> Option<SceneUseTopology> {
        match scene_place(self.scenes@, scene_id) {
            Some(i) => Some(self.scenes@[i].1),
            None => None,
        }
    }

    /// The scene of the given id.
    pub fn scene(&self, scene_id: SceneId) -> (r: Option<&SceneUseTopology>)
        ensures
            match r {
                Some(scene) => self.scene_of(scene_id) == Some(*scene),
                None => self.scene_of(scene_id) is None,
            },
    {
        let mut i: usize = 0;
        assert(self.scenes@.skip(0) == self.scenes@);
        while i < self.scenes.len()
            invariant
                i <= self.scenes.len(),
                scene_place(self.scenes@, scene_id) == match scene_place(
                    self.scenes@.skip(i as int),
                    scene_id,
                ) {
                    Some(j) => Some(j + i),
                    None => None,
                },
            decreases self.scenes.len() - i,
        {
            let ghost rest = self.scenes@.skip(i as int);
            assert(rest[0] == self.scenes@[i as int]);
            assert(rest.drop_first() == self.scenes@.skip(i + 1));
            if self.scenes[i].0 == scene_id {
                return Some(&self.scenes[i].1);
            }
            i += 1;
        }
        None
    }
}

impl ServerUseTopology {
    /// What the topology holds for a realm.
    pub open spec fn realm_of(&self, realm_id: RealmIdView) -> Option<RealmUseTopology> {
        if realm_id is PublicDefault {
            self.default_realm
        } else {
            match realm_place(self.other_realms@, realm_id) {
                Some(i) => Some(self.other_realms@[i].1),
                None => None,
            }
        }
    }

    /// The realm of the given id.
    pub fn realm(&self, realm_id: RealmId) -> (r: Option<&RealmUseTopology>)
        ensures
            match r {
                Some(realm) => self.realm_of(realm_id@) == Some(*realm),
                None => self.realm_of(realm_id@) is None,
            },
    {
        if realm_id.is_public_default() {
            return self.default_realm.as_ref();
        }
        let mut i: usize = 0;
        assert(self.other_realms@.skip(0) == self.other_realms@);
        while i < self.other_realms.len()
            invariant
                i <= self.other_realms.len(),
                !(realm_id@ is PublicDefault),
                realm_place(self.other_realms@, realm_id@) == match realm_place(
                    self.other_realms@.skip(i as int),
                    realm_id@,
                ) {
                    Some(j) => Some(j + i),
                    None => None,
                },
            decreases self.other_realms.len() - i,
        {
            let ghost rest = self.other_realms@.skip(i as int);
            assert(rest[0] == self.other_realms@[i as int]);
            assert(rest.drop_first() == self.other_realms@.skip(i + 1));
            if self.other_realms[i].0.same(&realm_id) {
                return Some(&self.other_realms[i].1);
            }
            i += 1;
        }
        None
    }

    /// The realms with their ids: the public default realm first, where there is
    /// one, then the others in their order.
    pub fn realms(&self) -> (r: Vec<(RealmId, &RealmUseTopology)>)
        ensures
            r@.len() == self.listed_before() + self.other_realms@.len(),
            self.default_realm matches Some(realm) ==> r@[0].0@ is PublicDefault && *r@[0].1
                == realm,
            forall|k: int|
                self.listed_before() <= k < r@.len() ==> (#[trigger] r@[k]).0
                    == self.other_realms@[k - self.listed_before()].0 && *r@[k].1
                    == self.other_realms@[k - self.listed_before()].1,
    {
        let mut r: Vec<(RealmId, &RealmUseTopology)> = Vec::new();
        match &self.default_realm {
            Some(realm) => {
                r.push((RealmId::PublicDefault, realm));
            },
            None => {},
        }
        let ghost first = self.listed_before();
        let mut i: usize = 0;
        while i < self.other_realms.len()
            invariant
                i <= self.other_realms.len(),
                first == self.listed_before(),
                r@.len() == first + i,
                self.default_realm matches Some(realm) ==> r@[0].0@ is PublicDefault && *r@[0].1
                    == realm,
                forall|k: int|
                    first <= k < r@.len() ==> (#[trigger] r@[k]).0 == self.other_realms@[k
                        - first].0 && *r@[k].1 == self.other_realms@[k - first].1,
            decreases self.other_realms.len() - i,
        {
            r.push((self.other_realms[i].0, &self.other_realms[i].1));
            i += 1;
        }
        r
    }

    /// How many realms `realms` lists before the others: one where there is a
    /// public default realm.
    pub open spec fn listed_before(&self) -> int {
        if self.default_realm is Some {
            1
        } else {
            0
        }
    }

    /// What the topology holds for an arena.
    pub open spec fn arena_of(&self, arena_id: ArenaIdView) -> Option<SceneUseTopology> {
        match self.realm_of(arena_id.realm_id) {
            Some(realm) => realm.scene_of(arena_id.scene_id),
            None => None,
        }
    }

    /// The scene of the given arena.
    pub fn arena(&self, arena_id: ArenaId) -> (r: Option<&SceneUseTopology>)
        ensures
            match r {
                Some(scene) => self.arena_of(arena_id@) == Some(*scene),
                None => self.arena_of(arena_id@) is None,
            },
    {
        match self.realm(arena_id.realm_id) {
            Some(realm) => realm.scene(arena_id.scene_id),
            None => None,
        }
    }

    /// The realms as `realms` lists them, with their ids as views.
    pub open spec fn listed_realms(&self) -> Seq<(RealmIdView, RealmUseTopology)> {
        let others = self.other_realms@.map_values(|e: (RealmId, RealmUseTopology)| (e.0@, e.1));
        match self.default_realm {
            Some(realm) => seq![(RealmIdView::PublicDefault, realm)] + others,
            None => others,
        }
    }

    /// The scenes of all realms with the ids of their arenas: those of the public
    /// default realm first, then those of the other realms, each in its order.
    pub fn arenas(&self) -> (r: Vec<(ArenaId, &SceneUseTopology)>)
        ensures
            r@.map_values(|e: (ArenaId, &SceneUseTopology)| (e.0@, *e.1)) == arenas_of(
                self.listed_realms(),
            ),
    {
        let realms = self.realms();
        let ghost listed = self.listed_realms();
        proof {
            assert(listed.len() == realms@.len());
            assert forall|k: int| 0 <= k < realms@.len() implies listed[k] == (
                (#[trigger] realms@[k]).0@,
                *realms@[k].1,
            ) by {
                if k >= self.listed_before() {
                    let i = k - self.listed_before();
                    assert(self.other_realms@[i].0@ == realms@[k].0@);
                }
            }
            assert(listed.take(0) == Seq::<(RealmIdView, RealmUseTopology)>::empty());
        }
        let mut r: Vec<(ArenaId, &SceneUseTopology)> = Vec::new();
        let mut i: usize = 0;
        assert(r@.map_values(|e: (ArenaId, &SceneUseTopology)| (e.0@, *e.1)) == arenas_of(
            listed.take(0),
        ));
        while i < realms.len()
            invariant
                i <= realms.len(),
                listed.len() == realms@.len(),
                forall|k: int|
                    0 <= k < realms@.len() ==> listed[k] == ((#[trigger] realms@[k]).0@, *realms@[k].1),
                r@.map_values(|e: (ArenaId, &SceneUseTopology)| (e.0@, *e.1)) == arenas_of(
                    listed.take(i as int),
                ),
            decreases realms.len() - i,
        {
            let (realm_id, realm) = realms[i];
            let ghost before = arenas_of(listed.take(i as int));
            let ghost scenes = scenes_of(realm_id@, *realm);
            proof {
                assert(listed.take(i + 1).drop_last() == listed.take(i as int));
                assert(listed.take(i + 1).last() == (realm_id@, *realm));
                assert(scenes.take(0) == Seq::<(ArenaIdView, SceneUseTopology)>::empty());
                assert(before + scenes.take(0) == before);
            }
            let mut j: usize = 0;
            while j < realm.scenes.len()
                invariant
                    j <= realm.scenes.len(),
                    scenes == scenes_of(realm_id@, *realm),
                    r@.map_values(|e: (ArenaId, &SceneUseTopology)| (e.0@, *e.1)) == before
                        + scenes.take(j as int),
                decreases realm.scenes.len() - j,
            {
                let arena_id = ArenaId::new(realm_id, realm.scenes[j].0);
                let ghost old_r = r@;
                r.push((arena_id, &realm.scenes[j].1));
                proof {
                    let view = |e: (ArenaId, &SceneUseTopology)| (e.0@, *e.1);
                    assert(r@.map_values(view) == old_r.map_values(view).push(
                        (arena_id@, realm.scenes@[j as int].1),
                    ));
                    assert(scenes.take(j + 1) == scenes.take(j as int).push(scenes[j as int]));
                    assert(before + scenes.take(j + 1) == (before + scenes.take(j as int)).push(
                        scenes[j as int],
                    ));
                }
                j += 1;
            }
            assert(scenes.take(j as int) == scenes);
            i += 1;
        }
        assert(listed.take(i as int) == listed);
        r
    }
}

/// The scenes of a realm with the ids of their arenas, in their order.
pub open spec fn scenes_of(realm_id: RealmIdView, realm: RealmUseTopology) -> Seq<
    (ArenaIdView, SceneUseTopology),
> {
    realm.scenes@.map_values(
        |e: (SceneId, SceneUseTopology)| (ArenaIdView { realm_id, scene_id: e.0 }, e.1),
    )
}

/// The scenes of a list of realms with the ids of their arenas: realm after
/// realm, each with its scenes in their order.
pub open spec fn arenas_of(realms: Seq<(RealmIdView, RealmUseTopology)>) -> Seq<
    (ArenaIdView, SceneUseTopology),
>
    decreases realms.len(),
{
    if realms.len() == 0 {
        Seq::empty()
    } else {
        arenas_of(realms.drop_last()) + scenes_of(realms.last().0, realms.last().1)
    }
}

} // verus!
