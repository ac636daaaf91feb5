//! The entity store: owns every entity, assigns identifiers, advances
//! dynamics, applies deferred deletions and reports scores.
use crate::collidable::Collidable;
use crate::objects::{Collectable, Player};
use vstd::prelude::*;

verus! {

/// Identifiers strictly increase along the sequence, so none repeats.
pub open spec fn ids_increasing(s: Seq<Collidable>) -> bool {
    forall|i: int, j: int| 0 <= i < j < s.len() ==> s[i].attrs().id < s[j].attrs().id
}

pub open spec fn all_wf(s: Seq<Collidable>) -> bool {
    forall|i: int| 0 <= i < s.len() ==> #[trigger] s[i].wf()
}

/// The two sequences hold entities with the same identifiers, in the same
/// places.
pub open spec fn same_ids(a: Seq<Collidable>, b: Seq<Collidable>) -> bool {
    &&& a.len() == b.len()
    &&& forall|i: int| 0 <= i < a.len() ==> #[trigger] a[i].attrs().id == b[i].attrs().id
}

/// Position of the last entity with identifier `id`, or `-1`.
pub open spec fn index_of(s: Seq<Collidable>, id: u32) -> int
    decreases s.len(),
{
    if s.len() == 0 {
        -1
    } else if s.last().attrs().id == id {
        s.len() - 1
    } else {
        index_of(s.drop_last(), id)
    }
}

/// Whether an entity with identifier `id` is in `s`.
pub open spec fn has_id(s: Seq<Collidable>, id: u32) -> bool {
    exists|i: int| 0 <= i < s.len() && #[trigger] s[i].attrs().id == id
}

/// Score of the last player of `s` whose player id is `player_id`, or zero.
pub open spec fn score_in(s: Seq<Collidable>, player_id: u32) -> u32
    decreases s.len(),
{
    if s.len() == 0 {
        0
    } else {
        match s.last() {
            Collidable::Player(p) => if p.player_id == player_id {
                p.score
            } else {
                score_in(s.drop_last(), player_id)
            },
            _ => score_in(s.drop_last(), player_id),
        }
    }
}

/// The entities of `s` that carry no deletion request, in order.
pub open spec fn live(s: Seq<Collidable>) -> Seq<Collidable>
    decreases s.len(),
{
    if s.len() == 0 {
        s
    } else if s.last().attrs().request_deletion {
        live(s.drop_last())
    } else {
        live(s.drop_last()).push(s.last())
    }
}

/// Every entity of `s` after one dynamics step of `dt`.
pub open spec fn stepped_all(s: Seq<Collidable>, dt: int) -> Seq<Collidable> {
    Seq::new(s.len(), |i: int| s[i].stepped(dt))
}

/// The players of `s`, in order.
pub open spec fn players_of(s: Seq<Collidable>) -> Seq<Collidable>
    decreases s.len(),
{
    if s.len() == 0 {
        s
    } else if s.last() is Player {
        players_of(s.drop_last()).push(s.last())
    } else {
        players_of(s.drop_last())
    }
}

/// The entities of `s` that are not players, in order.
pub open spec fn others_of(s: Seq<Collidable>) -> Seq<Collidable>
    decreases s.len(),
{
    if s.len() == 0 {
        s
    } else if s.last() is Player {
        others_of(s.drop_last())
    } else {
        others_of(s.drop_last()).push(s.last())
    }
}

pub proof fn lemma_index_of(s: Seq<Collidable>, id: u32)
    ensures
        -1 <= index_of(s, id) < s.len(),
        index_of(s, id) >= 0 ==> s[index_of(s, id)].attrs().id == id,
        index_of(s, id) == -1 <==> !has_id(s, id),
    decreases s.len(),
{
    if s.len() > 0 {
        lemma_index_of(s.drop_last(), id);
        if s.last().attrs().id != id && index_of(s, id) == -1 {
            assert forall|i: int| 0 <= i < s.len() implies s[i].attrs().id != id by {
                if i < s.len() - 1 {
                    assert(s.drop_last()[i] == s[i]);
                }
            }
        }
        if has_id(s.drop_last(), id) {
            let i = choose|i: int| 0 <= i < s.len() - 1 && s.drop_last()[i].attrs().id == id;
            assert(s[i] == s.drop_last()[i]);
        }
    }
}

/// What `live` keeps: a subsequence of entities without a deletion request
/// that holds every such entity.
pub proof fn lemma_live(s: Seq<Collidable>)
    ensures
        live(s).len() <= s.len(),
        forall|i: int| 0 <= i < live(s).len() ==> !(#[trigger] live(s)[i]).attrs().request_deletion,
        forall|i: int| 0 <= i < live(s).len() ==> s.contains(#[trigger] live(s)[i]),
        forall|i: int|
            0 <= i < s.len() && !s[i].attrs().request_deletion ==> live(s).contains(
                #[trigger] s[i],
            ),
    decreases s.len(),
{
    if s.len() > 0 {
        let t = s.drop_last();
        lemma_live(t);
        assert forall|i: int| 0 <= i < live(s).len() implies s.contains(#[trigger] live(s)[i]) by {
            if i < live(t).len() {
                assert(live(s)[i] == live(t)[i]);
                let j = choose|j: int| 0 <= j < t.len() && t[j] == live(t)[i];
                assert(s[j] == t[j]);
            } else {
                assert(live(s)[i] == s.last());
                assert(s[s.len() - 1] == s.last());
            }
        }
        assert forall|i: int|
            0 <= i < s.len() && !s[i].attrs().request_deletion implies live(s).contains(
                #[trigger] s[i],
            ) by {
            if i < s.len() - 1 {
                assert(t[i] == s[i]);
                assert(live(t).contains(t[i]));
                let j = choose|j: int| 0 <= j < live(t).len() && live(t)[j] == t[i];
                assert(live(s)[j] == live(t)[j]);
            } else {
                assert(live(s)[live(s).len() - 1] == s[i]);
            }
        }
    }
}

/// Replacing entities by others with the same identifiers keeps a store
/// well formed.
pub proof fn lemma_same_ids_keep_wf(w: World, objs: Seq<Collidable>)
    requires
        w.wf(),
        same_ids(objs, w.objects@),
        all_wf(objs),
    ensures
        ids_increasing(objs),
        forall|k: int| 0 <= k < objs.len() ==> #[trigger] objs[k].attrs().id < w.next_object_id,
{
    assert forall|a: int, b: int| 0 <= a < b < objs.len() implies objs[a].attrs().id
        < objs[b].attrs().id by {
        assert(objs[a].attrs().id == w.objects@[a].attrs().id);
        assert(objs[b].attrs().id == w.objects@[b].attrs().id);
    }
    assert forall|k: int| 0 <= k < objs.len() implies #[trigger] objs[k].attrs().id
        < w.next_object_id by {
        assert(objs[k].attrs().id == w.objects@[k].attrs().id);
    }
}

/// Position of the last entity of `objs` with identifier `id`.
pub fn position_of(objs: &Vec<Collidable>, id: u32) -> (r: Option<usize>)
    ensures
        match r {
            Some(i) => i as int == index_of(objs@, id) && i < objs@.len(),
            None => index_of(objs@, id) == -1,
        },
{
    let mut found: Option<usize> = None;
    let mut i: usize = 0;
    while i < objs.len()
        invariant
            i <= objs@.len(),
            match found {
                Some(k) => k as int == index_of(objs@.subrange(0, i as int), id) && k < i,
                None => index_of(objs@.subrange(0, i as int), id) == -1,
            },
        decreases objs@.len() - i,
    {
        proof {
            assert(objs@.subrange(0, i + 1).drop_last() =~= objs@.subrange(0, i as int));
        }
        if objs[i].get_id() == id {
            found = Some(i);
        }
        i += 1;
    }
    proof {
        assert(objs@.subrange(0, i as int) =~= objs@);
    }
    found
}

/// The entity store. All entities live in `objects`, in the order in which
/// they were added; an entity's kind is its variant, so the players of the
/// store are its `Player` entities.
pub struct World {
    pub objects: Vec<Collidable>,
    pub next_object_id: u32,
}

impl World {
    /// Entities are well formed, identifiers strictly increase in
    /// registration order, and all lie below the next identifier.
    pub open spec fn wf(&self) -> bool {
        &&& all_wf(self.objects@)
        &&& ids_increasing(self.objects@)
        &&& forall|i: int|
            0 <= i < self.objects@.len() ==> #[trigger] self.objects@[i].attrs().id
                < self.next_object_id
    }

    pub fn new() -> (r: Self)
        ensures
            r.wf(),
            r.objects@.len() == 0,
            r.next_object_id == 0,
    {
        World { objects: Vec::new(), next_object_id: 0 }
    }

    /// Score of the last registered player with the given player id, or
    /// zero where there is none.
    pub fn get_player_score(&self, player_id: u32) -> (r: u32)
        ensures
            r == score_in(self.objects@, player_id),
    {
        let mut score: u32 = 0;
        let mut i: usize = 0;
        while i < self.objects.len()
            invariant
                i <= self.objects@.len(),
                score == score_in(self.objects@.subrange(0, i as int), player_id),
            decreases self.objects@.len() - i,
        {
            proof {
                assert(self.objects@.subrange(0, i + 1).drop_last() =~= self.objects@.subrange(
                    0,
                    i as int,
                ));
            }
            match &self.objects[i] {
                Collidable::Player(p) => {
                    if p.player_id == player_id {
                        score = p.score;
                    }
                },
                _ => {},
            }
            i += 1;
        }
        proof {
            assert(self.objects@.subrange(0, i as int) =~= self.objects@);
        }
        score
    }

    fn get_new_object_id(&mut self) -> (r: u32)
        requires
            old(self).next_object_id < u32::MAX,
        ensures
            r == old(self).next_object_id,
            final(self).next_object_id == old(self).next_object_id + 1,
            final(self).objects == old(self).objects,
    {
        let id = self.next_object_id;
        self.next_object_id = self.next_object_id + 1;
        id
    }

    /// Registers `obj` under the next identifier and returns it; `None`, with
    /// nothing registered, once the identifiers are used up.
    pub fn add_object(&mut self, obj: Collidable) -> (r: Option<u32>)
        requires
            old(self).wf(),
            obj.wf(),
        ensures
            final(self).wf(),
            old(self).next_object_id < u32::MAX ==> {
                &&& r == Some(old(self).next_object_id)
                &&& final(self).objects@ == old(self).objects@.push(
                    obj.with_id(old(self).next_object_id),
                )
                &&& final(self).next_object_id == old(self).next_object_id + 1
            },
            old(self).next_object_id == u32::MAX ==> r is None && *final(self) == *old(self),
    {
        if self.next_object_id == u32::MAX {
            return None;
        }
        let id = self.get_new_object_id();
        let mut obj = obj;
        obj.set_id(id);
        self.objects.push(obj);
        Some(id)
    }

    /// Registers a player; see `add_object`.
    pub fn add_player_object(&mut self, player: Player) -> (r: Option<u32>)
        requires
            old(self).wf(),
            player.wf(),
        ensures
            final(self).wf(),
            old(self).next_object_id < u32::MAX ==> {
                &&& r == Some(old(self).next_object_id)
                &&& final(self).objects@ == old(self).objects@.push(
                    Collidable::Player(player).with_id(old(self).next_object_id),
                )
                &&& final(self).next_object_id == old(self).next_object_id + 1
            },
            old(self).next_object_id == u32::MAX ==> r is None && *final(self) == *old(self),
    {
        self.add_object(Collidable::Player(player))
    }

    /// Registers a collectible; see `add_object`.
    pub fn add_collectable_object(&mut self, collectable: Collectable) -> (r: Option<u32>)
        requires
            old(self).wf(),
            collectable.obj_attr.wf(),
        ensures
            final(self).wf(),
            old(self).next_object_id < u32::MAX ==> {
                &&& r == Some(old(self).next_object_id)
                &&& final(self).objects@ == old(self).objects@.push(
                    Collidable::Collectable(collectable).with_id(old(self).next_object_id),
                )
                &&& final(self).next_object_id == old(self).next_object_id + 1
            },
            old(self).next_object_id == u32::MAX ==> r is None && *final(self) == *old(self),
    {
        self.add_object(Collidable::Collectable(collectable))
    }

    /// Drops every entity whose deletion was requested; the others stay, in
    /// order.
    pub fn cleanup_objects(&mut self)
        requires
            old(self).wf(),
        ensures
            final(self).wf(),
            final(self).objects@ == live(old(self).objects@),
            final(self).next_object_id == old(self).next_object_id,
    {
        let ghost orig = self.objects@;
        let mut kept: Vec<Collidable> = Vec::new();
        let mut i: usize = 0;
        while i < self.objects.len()
            invariant
                self.objects@ == orig,
                i <= orig.len(),
                kept@ == live(orig.subrange(0, i as int)),
                all_wf(kept@),
                ids_increasing(kept@),
                forall|k: int, j: int|
                    0 <= k < kept@.len() && i <= j < orig.len() ==> #[trigger] kept@[k].attrs().id
                        < #[trigger] orig[j].attrs().id,
                forall|k: int|
                    0 <= k < kept@.len() ==> #[trigger] kept@[k].attrs().id < self.next_object_id,
                all_wf(orig),
                ids_increasing(orig),
                forall|k: int|
                    0 <= k < orig.len() ==> #[trigger] orig[k].attrs().id < self.next_object_id,
            decreases orig.len() - i,
        {
            proof {
                assert(orig.subrange(0, i + 1).drop_last() =~= orig.subrange(0, i as int));
            }
            let obj = self.objects[i];
            if !obj.borrow_base_object().is_deletion_requested() {
                kept.push(obj);
            }
            i += 1;
        }
        proof {
            assert(orig.subrange(0, i as int) =~= orig);
        }
        self.objects = kept;
    }

    /// Advances the dynamics of every player by `delta_time`; other entities
    /// do not move.
    pub fn update(&mut self, delta_time: i64)
        requires
            old(self).wf(),
        ensures
            final(self).wf(),
            final(self).objects@ == stepped_all(old(self).objects@, delta_time as int),
            final(self).next_object_id == old(self).next_object_id,
    {
        let ghost orig = self.objects@;
        let mut i: usize = 0;
        while i < self.objects.len()
            invariant
                self.objects@.len() == orig.len(),
                i <= orig.len(),
                forall|k: int| 0 <= k < i ==> self.objects@[k] == #[trigger] orig[k].stepped(
                    delta_time as int,
                ),
                forall|k: int| i <= k < orig.len() ==> self.objects@[k] == orig[k],
                same_ids(self.objects@, orig),
                all_wf(self.objects@),
                all_wf(orig),
                ids_increasing(orig),
                self.next_object_id == old(self).next_object_id,
                forall|k: int|
                    0 <= k < orig.len() ==> #[trigger] orig[k].attrs().id < self.next_object_id,
            decreases orig.len() - i,
        {
            let mut obj = self.objects[i];
            obj.update_position(delta_time);
            self.objects.set(i, obj);
            i += 1;
        }
        proof {
            assert(self.objects@ =~= stepped_all(orig, delta_time as int));
            assert forall|a: int, b: int|
                0 <= a < b < self.objects@.len() implies self.objects@[a].attrs().id
                < self.objects@[b].attrs().id by {
                assert(self.objects@[a].attrs().id == orig[a].attrs().id);
                assert(self.objects@[b].attrs().id == orig[b].attrs().id);
            }
            assert forall|k: int| 0 <= k < self.objects@.len() implies #[trigger] self.objects@[
                k].attrs().id < self.next_object_id by {
                assert(self.objects@[k].attrs().id == orig[k].attrs().id);
            }
        }
    }

    /// The live entities in drawing order: every entity that is not a
    /// player, in registration order, then every player, in registration
    /// order.
    pub fn draw_order(&self) -> (r: Vec<Collidable>)
        ensures
            r@ == others_of(self.objects@) + players_of(self.objects@),
    {
        let mut others: Vec<Collidable> = Vec::new();
        let mut players: Vec<Collidable> = Vec::new();
        let mut i: usize = 0;
        while i < self.objects.len()
            invariant
                i <= self.objects@.len(),
                others@ == others_of(self.objects@.subrange(0, i as int)),
                players@ == players_of(self.objects@.subrange(0, i as int)),
            decreases self.objects@.len() - i,
        {
            proof {
                assert(self.objects@.subrange(0, i + 1).drop_last() =~= self.objects@.subrange(
                    0,
                    i as int,
                ));
            }
            let obj = self.objects[i];
            match obj {
                Collidable::Player(_) => players.push(obj),
                _ => others.push(obj),
            }
            i += 1;
        }
        proof {
            assert(self.objects@.subrange(0, i as int) =~= self.objects@);
        }
        others.append(&mut players);
        others
    }
}

} // verus!
