//! The collision system: a registry of collidable entities, by identifier,
//! and the exhaustive pairwise collision pass over them.
use crate::collidable::Collidable;
use crate::world::{
    all_wf, has_id, ids_increasing, index_of, lemma_index_of, lemma_live, lemma_same_ids_keep_wf,
    live, position_of, same_ids, World,
};
use vstd::prelude::*;

verus! {

pub open spec fn sorted_ids(s: Seq<u32>) -> bool {
    forall|i: int, j: int| 0 <= i < j < s.len() ==> s[i] < s[j]
}

/// Whether `objs` holds an entity with identifier `id` that carries no
/// deletion request.
pub open spec fn is_live_id(objs: Seq<Collidable>, id: u32) -> bool {
    index_of(objs, id) >= 0 && !objs[index_of(objs, id)].attrs().request_deletion
}

/// The identifiers of `reg` that name live entities of `objs`, in order.
pub open spec fn kept_ids(reg: Seq<u32>, objs: Seq<Collidable>) -> Seq<u32>
    decreases reg.len(),
{
    if reg.len() == 0 {
        reg
    } else if is_live_id(objs, reg.last()) {
        kept_ids(reg.drop_last(), objs).push(reg.last())
    } else {
        kept_ids(reg.drop_last(), objs)
    }
}

proof fn lemma_kept_ids(reg: Seq<u32>, objs: Seq<Collidable>)
    ensures
        forall|i: int|
            0 <= i < kept_ids(reg, objs).len() ==> is_live_id(objs, #[trigger] kept_ids(reg, objs)[i]),
    decreases reg.len(),
{
    if reg.len() > 0 {
        let t = kept_ids(reg.drop_last(), objs);
        lemma_kept_ids(reg.drop_last(), objs);
        assert forall|i: int| 0 <= i < kept_ids(reg, objs).len() implies is_live_id(
            objs,
            #[trigger] kept_ids(reg, objs)[i],
        ) by {
            if i < t.len() {
                assert(kept_ids(reg, objs)[i] == t[i]);
            }
        }
    }
}

/// After the world's cleanup and then the registry's cleanup against what
/// the world kept, an entity that had requested its deletion is in neither,
/// and every identifier left in the registry names an entity of the world.
pub proof fn lemma_cleanup_consistent(objs: Seq<Collidable>, reg: Seq<u32>, i: int)
    requires
        ids_increasing(objs),
        0 <= i < objs.len(),
        objs[i].attrs().request_deletion,
    ensures
        !has_id(live(objs), objs[i].attrs().id),
        !kept_ids(reg, live(objs)).contains(objs[i].attrs().id),
        forall|x: u32| #[trigger] kept_ids(reg, live(objs)).contains(x) ==> has_id(live(objs), x),
{
    let w = live(objs);
    let id = objs[i].attrs().id;
    lemma_live(objs);
    lemma_kept_ids(reg, w);
    if has_id(w, id) {
        let j = choose|j: int| 0 <= j < w.len() && #[trigger] w[j].attrs().id == id;
        assert(objs.contains(w[j]));
        let m = choose|m: int| 0 <= m < objs.len() && objs[m] == w[j];
        if m < i {
            assert(objs[m].attrs().id < objs[i].attrs().id);
        } else if m > i {
            assert(objs[i].attrs().id < objs[m].attrs().id);
        }
        assert(!w[j].attrs().request_deletion);
    }
    assert forall|x: u32| #[trigger] kept_ids(reg, w).contains(x) implies has_id(w, x) by {
        let k = choose|k: int| 0 <= k < kept_ids(reg, w).len() && kept_ids(reg, w)[k] == x;
        assert(is_live_id(w, kept_ids(reg, w)[k]));
        lemma_index_of(w, x);
    }
}

/// The entities after the entity with identifier `a` tried to collide with
/// the one with identifier `b`.
pub open spec fn pair_step(s: Seq<Collidable>, a: u32, b: u32) -> Seq<Collidable> {
    let ia = index_of(s, a);
    let ib = index_of(s, b);
    if a == b || ia < 0 || ib < 0 {
        s
    } else {
        s.update(ia, s[ia].tried(s[ib]))
    }
}

/// The entities after `a` tried to collide with each of the first `k`
/// registered identifiers, in order.
pub open spec fn inner_pass(s: Seq<Collidable>, reg: Seq<u32>, a: u32, k: nat) -> Seq<
    Collidable,
>
    decreases k,
{
    if k == 0 {
        s
    } else {
        pair_step(inner_pass(s, reg, a, (k - 1) as nat), a, reg[k - 1])
    }
}

/// The entities after each of the first `k` registered identifiers, in
/// order, tried to collide with every registered identifier.
pub open spec fn outer_pass(s: Seq<Collidable>, reg: Seq<u32>, k: nat) -> Seq<Collidable>
    decreases k,
{
    if k == 0 {
        s
    } else {
        let t = outer_pass(s, reg, (k - 1) as nat);
        inner_pass(t, reg, reg[k - 1], reg.len())
    }
}

/// The entities after one full collision pass over `reg`.
pub open spec fn collision_pass(s: Seq<Collidable>, reg: Seq<u32>) -> Seq<Collidable> {
    outer_pass(s, reg, reg.len())
}

/// The registry of collidable entities, by identifier, in increasing order.
pub struct SysCollision {
    pub objects: Vec<u32>,
}

impl SysCollision {
    pub open spec fn wf(&self) -> bool {
        sorted_ids(self.objects@)
    }

    pub fn new() -> (r: Self)
        ensures
            r.wf(),
            r.objects@.len() == 0,
    {
        SysCollision { objects: Vec::new() }
    }

    /// Registers the entity with identifier `id`, keeping the registry in
    /// increasing order; an identifier already there is not added twice.
    pub fn add_collidable_object(&mut self, id: u32)
        requires
            old(self).wf(),
        ensures
            final(self).wf(),
            forall|x: u32| #[trigger]
                final(self).objects@.contains(x) <==> old(self).objects@.contains(x) || x == id,
    {
        let mut p: usize = 0;
        while p < self.objects.len() && self.objects[p] < id
            invariant
                p <= self.objects@.len(),
                forall|k: int| 0 <= k < p ==> self.objects@[k] < id,
            decreases self.objects@.len() - p,
        {
            p += 1;
        }
        if p < self.objects.len() && self.objects[p] == id {
            return;
        }
        let ghost before = self.objects@;
        self.objects.insert(p, id);
        proof {
            assert(self.objects@ == before.insert(p as int, id));
            assert forall|x: u32| before.contains(x) || x == id implies #[trigger]
                self.objects@.contains(x) by {
                if x == id {
                    assert(self.objects@[p as int] == id);
                } else if before.contains(x) {
                    let k = choose|k: int| 0 <= k < before.len() && before[k] == x;
                    if k < p {
                        assert(self.objects@[k] == x);
                    } else {
                        assert(self.objects@[k + 1] == x);
                    }
                }
            }
            assert forall|x: u32| #[trigger]
                self.objects@.contains(x) implies before.contains(x) || x == id by {
                let k = choose|k: int| 0 <= k < self.objects@.len() && self.objects@[k] == x;
                if k < p {
                    assert(before[k] == x);
                } else if k > p {
                    assert(before[k - 1] == x);
                }
            }
        }
    }

    /// Registers a static entity; see `add_collidable_object`.
    pub fn add_static_object(&mut self, id: u32)
        requires
            old(self).wf(),
        ensures
            final(self).wf(),
            forall|x: u32| #[trigger]
                final(self).objects@.contains(x) <==> old(self).objects@.contains(x) || x == id,
    {
        self.add_collidable_object(id);
    }

    /// Drops from the registry every identifier whose entity is gone from
    /// `world` or has requested its deletion.
    pub fn cleanup_objects(&mut self, world: &World)
        requires
            old(self).wf(),
        ensures
            final(self).wf(),
            final(self).objects@ == kept_ids(old(self).objects@, world.objects@),
    {
        let ghost orig = self.objects@;
        let mut kept: Vec<u32> = Vec::new();
        let mut i: usize = 0;
        while i < self.objects.len()
            invariant
                self.objects@ == orig,
                sorted_ids(orig),
                i <= orig.len(),
                kept@ == kept_ids(orig.subrange(0, i as int), world.objects@),
                sorted_ids(kept@),
                forall|k: int, j: int|
                    0 <= k < kept@.len() && i <= j < orig.len() ==> #[trigger] kept@[k]
                        < #[trigger] orig[j],
            decreases orig.len() - i,
        {
            proof {
                assert(orig.subrange(0, i + 1).drop_last() =~= orig.subrange(0, i as int));
            }
            let id = self.objects[i];
            match position_of(&world.objects, id) {
                Some(k) => {
                    if !world.objects[k].borrow_base_object().is_deletion_requested() {
                        kept.push(id);
                    }
                },
                None => {},
            }
            i += 1;
        }
        proof {
            assert(orig.subrange(0, i as int) =~= orig);
        }
        self.objects = kept;
    }

    /// One collision pass: in increasing order of identifier, each
    /// registered entity tries to collide with every other registered
    /// entity, in the same order, and reacts to each overlap on its own side.
    pub fn process_collisions(&self, world: &mut World)
        requires
            old(world).wf(),
        ensures
            final(world).wf(),
            final(world).objects@ == collision_pass(old(world).objects@, self.objects@),
            final(world).next_object_id == old(world).next_object_id,
    {
        let ghost orig = world.objects@;
        let ghost w0 = *world;
        let ghost reg = self.objects@;
        let n = self.objects.len();
        let mut ii: usize = 0;
        while ii < n
            invariant
                n == reg.len(),
                reg == self.objects@,
                ii <= n,
                world.objects@ == outer_pass(orig, reg, ii as nat),
                same_ids(world.objects@, orig),
                all_wf(world.objects@),
                w0.wf(),
                w0.objects@ == orig,
                world.next_object_id == w0.next_object_id,
            decreases n - ii,
        {
            let a = self.objects[ii];
            let ghost start = world.objects@;
            let mut jj: usize = 0;
            while jj < n
                invariant
                    n == reg.len(),
                    reg == self.objects@,
                    ii < n,
                    a == reg[ii as int],
                    jj <= n,
                    start == outer_pass(orig, reg, ii as nat),
                    world.objects@ == inner_pass(start, reg, a, jj as nat),
                    same_ids(world.objects@, orig),
                    all_wf(world.objects@),
                    w0.wf(),
                    w0.objects@ == orig,
                    world.next_object_id == w0.next_object_id,
                decreases n - jj,
            {
                let b = self.objects[jj];
                let ghost cur = world.objects@;
                if a != b {
                    let ia = position_of(&world.objects, a);
                    let ib = position_of(&world.objects, b);
                    match (ia, ib) {
                        (Some(ia), Some(ib)) => {
                            let other = world.objects[ib];
                            let mut me = world.objects[ia];
                            me.try_collide(&other);
                            world.objects.set(ia, me);
                            proof {
                                assert(world.objects@ == cur.update(ia as int, cur[ia as int].tried(
                                    cur[ib as int],
                                )));
                                assert forall|k: int| 0 <= k < world.objects@.len() implies #[trigger]
                                    world.objects@[k].attrs().id == orig[k].attrs().id by {
                                    assert(cur[k].attrs().id == orig[k].attrs().id);
                                }
                            }
                        },
                        _ => {},
                    }
                }
                jj += 1;
            }
            ii += 1;
        }
        proof {
            lemma_same_ids_keep_wf(w0, world.objects@);
        }
    }
}

} // verus!
