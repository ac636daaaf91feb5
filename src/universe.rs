//! The simulation loop: one round of the game, advanced frame by frame.
use crate::collidable::Collidable;
use crate::event::Event;
use crate::fixed::{in_coord_range, COORD_LIMIT, UNIT};
use crate::objects::{Collectable, Color, Player, Wall, COLLECTIBLE_SIZE};
use crate::sys_collision::{collision_pass, kept_ids, SysCollision};
use crate::sys_event::{deliver_all, SysEvent};
use crate::world::{live, score_in, stepped_all, World};
use vstd::prelude::*;

verus! {

/// Length of a round, in seconds.
pub const TIMER: u32 = 30;

/// Distance from the arena's edges inside which no collectible appears
/// (`20.0`).
pub const SPAWN_MARGIN: i64 = 20 * UNIT;

/// Shortest side of a random wall (`30.0`).
pub const WALL_MIN_SIZE: i64 = 30 * UNIT;

/// Bound, excluded, on the side of a random wall (`100.0`).
pub const WALL_MAX_SIZE: i64 = 100 * UNIT;

/// Wall-clock time, in milliseconds, that the timer waits between ticks;
/// it ticks once strictly more than this has passed.
pub const TICK_MS: i64 = 1000;

/// `a - b`, or zero where `b` exceeds `a`.
pub open spec fn gain(a: u32, b: u32) -> nat {
    if a >= b {
        (a - b) as nat
    } else {
        0
    }
}

/// A collectible that `add_random_collectible` may add with identifier `id`
/// in an arena of the given size.
pub open spec fn spawned_collectible(c: Collidable, id: u32, width: i64, height: i64) -> bool {
    &&& c is Collectable
    &&& c.wf()
    &&& c.attrs().id == id
    &&& !c.attrs().request_deletion
    &&& SPAWN_MARGIN <= c.attrs().x < width - SPAWN_MARGIN
    &&& SPAWN_MARGIN <= c.attrs().y < height - SPAWN_MARGIN
    &&& COLLECTIBLE_SIZE <= c.attrs().width < COLLECTIBLE_SIZE + UNIT
    &&& COLLECTIBLE_SIZE <= c.attrs().height < COLLECTIBLE_SIZE + UNIT
}

/// The entities after a frame's event, cleanup, dynamics and collision
/// phases, before any collectible is spawned.
pub open spec fn frame_entities(u: Universe, input: Seq<Event>, frame_time: int) -> Seq<
    Collidable,
> {
    let delivered = deliver_all(
        u.world.objects@,
        u.sys_event.subscribers@,
        u.sys_event.pending() + input,
    );
    let kept = live(delivered);
    collision_pass(stepped_all(kept, frame_time), kept_ids(u.sys_collision.objects@, kept))
}

/// The collision registry after a frame's cleanup phase.
pub open spec fn frame_registry(u: Universe, input: Seq<Event>) -> Seq<u32> {
    let delivered = deliver_all(
        u.world.objects@,
        u.sys_event.subscribers@,
        u.sys_event.pending() + input,
    );
    kept_ids(u.sys_collision.objects@, live(delivered))
}

/// The two universes agree on the round's state: timer, clock, scores and
/// arena.
pub open spec fn same_round(a: Universe, b: Universe) -> bool {
    &&& a.game_over == b.game_over
    &&& a.timer == b.timer
    &&& a.last_time == b.last_time
    &&& a.score_0 == b.score_0
    &&& a.score_1 == b.score_1
    &&& a.arena_width == b.arena_width
    &&& a.arena_height == b.arena_height
}

/// One round of the game: the entity store, the collision system, the event
/// bus, the round timer and the scores seen at the end of the last frame.
pub struct Universe {
    pub sys_event: SysEvent,
    pub sys_collision: SysCollision,
    pub world: World,
    pub game_over: bool,
    pub timer: u32,
    pub last_time: i64,
    pub score_0: u32,
    pub score_1: u32,
    pub arena_width: i64,
    pub arena_height: i64,
}

impl Universe {
    /// The arena leaves room for collectibles inside the spawn margin, and a
    /// running round has time left.
    pub open spec fn wf(&self) -> bool {
        &&& self.world.wf()
        &&& self.sys_collision.wf()
        &&& 2 * SPAWN_MARGIN < self.arena_width <= COORD_LIMIT
        &&& 2 * SPAWN_MARGIN < self.arena_height <= COORD_LIMIT
        &&& !self.game_over ==> self.timer > 0
    }

    /// An empty arena of the given size, with a full timer and no score.
    pub fn new(arena_width: i64, arena_height: i64) -> (r: Self)
        requires
            2 * SPAWN_MARGIN < arena_width <= COORD_LIMIT,
            2 * SPAWN_MARGIN < arena_height <= COORD_LIMIT,
        ensures
            r.wf(),
            r.world.objects@.len() == 0,
            r.world.next_object_id == 0,
            r.sys_collision.objects@.len() == 0,
            r.sys_event.subscribers@.len() == 0,
            r.sys_event.pending().len() == 0,
            !r.game_over,
            r.timer == TIMER,
            r.last_time == 0,
            r.score_0 == 0 && r.score_1 == 0,
            r.arena_width == arena_width && r.arena_height == arena_height,
    {
        Universe {
            sys_event: SysEvent::new(),
            sys_collision: SysCollision::new(),
            world: World::new(),
            game_over: false,
            timer: TIMER,
            last_time: 0,
            score_0: 0,
            score_1: 0,
            arena_width,
            arena_height,
        }
    }

    /// Adds a player: it is registered in the world, listens to the event
    /// bus and takes part in collisions. Nothing is added once the world's
    /// identifiers are used up.
    pub fn add_player(
        &mut self,
        player_id: u32,
        position_xy: (i64, i64),
        size_wh: (i64, i64),
        mass: i64,
        friction: i64,
        color: Color,
    )
        requires
            old(self).wf(),
            in_coord_range(position_xy.0 as int),
            in_coord_range(position_xy.1 as int),
            in_coord_range(size_wh.0 as int),
            in_coord_range(size_wh.1 as int),
            mass > 0,
        ensures
            final(self).wf(),
            old(self).world.next_object_id < u32::MAX ==> {
                let id = old(self).world.next_object_id;
                &&& final(self).world.objects@ == old(self).world.objects@.push(
                    Collidable::Player(
                        Player::new_spec(player_id, id, position_xy, size_wh, mass, friction, color),
                    ),
                )
                &&& final(self).sys_event.subscribers@ == old(self).sys_event.subscribers@.push(id)
                &&& forall|x: u32| #[trigger]
                    final(self).sys_collision.objects@.contains(x) <==> old(
                        self,
                    ).sys_collision.objects@.contains(x) || x == id
            },
            old(self).world.next_object_id == u32::MAX ==> *final(self) == *old(self),
            final(self).sys_event.pending() == old(self).sys_event.pending(),
            same_round(*final(self), *old(self)),
    {
        let player = Player::new(player_id, 0, position_xy, size_wh, mass, friction, color);
        match self.world.add_player_object(player) {
            Some(id) => {
                self.sys_event.subscribe(id);
                self.sys_collision.add_collidable_object(id);
            },
            None => {},
        }
    }

    /// Adds a wall with the given position and size.
    pub fn add_wall(&mut self, position_xy: (i64, i64), size_wh: (i64, i64))
        requires
            old(self).wf(),
            in_coord_range(position_xy.0 as int),
            in_coord_range(position_xy.1 as int),
            in_coord_range(size_wh.0 as int),
            in_coord_range(size_wh.1 as int),
        ensures
            final(self).wf(),
            old(self).world.next_object_id < u32::MAX ==> {
                let id = old(self).world.next_object_id;
                &&& final(self).world.objects@ == old(self).world.objects@.push(
                    Collidable::Wall(
                        Wall { obj_attr: crate::game_object::GameObjectAttributes::new_spec(
                            id,
                            position_xy,
                            size_wh,
                        ) },
                    ),
                )
                &&& forall|x: u32| #[trigger]
                    final(self).sys_collision.objects@.contains(x) <==> old(
                        self,
                    ).sys_collision.objects@.contains(x) || x == id
            },
            old(self).world.next_object_id == u32::MAX ==> *final(self) == *old(self),
            final(self).sys_event == old(self).sys_event,
            same_round(*final(self), *old(self)),
    {
        let wall = Wall::new(0, position_xy, size_wh);
        self.push_static_object(wall);
    }

    fn push_static_object(&mut self, object: Wall)
        requires
            old(self).wf(),
            object.obj_attr.wf(),
        ensures
            final(self).wf(),
            old(self).world.next_object_id < u32::MAX ==> {
                let id = old(self).world.next_object_id;
                &&& final(self).world.objects@ == old(self).world.objects@.push(
                    Collidable::Wall(object).with_id(id),
                )
                &&& final(self).world.next_object_id == id + 1
                &&& forall|x: u32| #[trigger]
                    final(self).sys_collision.objects@.contains(x) <==> old(
                        self,
                    ).sys_collision.objects@.contains(x) || x == id
            },
            old(self).world.next_object_id == u32::MAX ==> *final(self) == *old(self),
            final(self).sys_event == old(self).sys_event,
            same_round(*final(self), *old(self)),
    {
        match self.world.add_object(Collidable::Wall(object)) {
            Some(id) => self.sys_collision.add_static_object(id),
            None => {},
        }
    }

    /// Adds a collectible at a random place inside the spawn margin.
    pub fn add_random_collectible(&mut self)
        requires
            old(self).wf(),
        ensures
            final(self).wf(),
            old(self).world.next_object_id < u32::MAX ==> {
                let id = old(self).world.next_object_id;
                &&& final(self).world.objects@.len() == old(self).world.objects@.len() + 1
                &&& final(self).world.objects@.drop_last() == old(self).world.objects@
                &&& spawned_collectible(
                    final(self).world.objects@.last(),
                    id,
                    old(self).arena_width,
                    old(self).arena_height,
                )
                &&& final(self).world.next_object_id == id + 1
                &&& forall|x: u32| #[trigger]
                    final(self).sys_collision.objects@.contains(x) <==> old(
                        self,
                    ).sys_collision.objects@.contains(x) || x == id
            },
            old(self).world.next_object_id == u32::MAX ==> *final(self) == *old(self),
            final(self).sys_event == old(self).sys_event,
            same_round(*final(self), *old(self)),
    {
        let object = Collectable::random(
            (
                SPAWN_MARGIN..self.arena_width - SPAWN_MARGIN,
                SPAWN_MARGIN..self.arena_height - SPAWN_MARGIN,
            ),
        );
        let ghost before = self.world.objects@;
        match self.world.add_collectable_object(object) {
            Some(id) => {
                self.sys_collision.add_collidable_object(id);
                proof {
                    assert(self.world.objects@.drop_last() =~= before);
                }
            },
            None => {},
        }
    }

    /// Adds a wall of random position and size.
    pub fn add_random_wall(&mut self)
        requires
            old(self).wf(),
        ensures
            final(self).wf(),
            old(self).world.next_object_id < u32::MAX ==> {
                let id = old(self).world.next_object_id;
                let w = final(self).world.objects@.last();
                &&& final(self).world.objects@.len() == old(self).world.objects@.len() + 1
                &&& final(self).world.objects@.drop_last() == old(self).world.objects@
                &&& w is Wall
                &&& w.attrs().id == id
                &&& !w.attrs().request_deletion
                &&& 0 <= w.attrs().x < old(self).arena_width
                &&& 0 <= w.attrs().y < old(self).arena_height
                &&& WALL_MIN_SIZE <= w.attrs().width < WALL_MAX_SIZE
                &&& WALL_MIN_SIZE <= w.attrs().height < WALL_MAX_SIZE
                &&& final(self).world.next_object_id == id + 1
                &&& forall|x: u32| #[trigger]
                    final(self).sys_collision.objects@.contains(x) <==> old(
                        self,
                    ).sys_collision.objects@.contains(x) || x == id
            },
            old(self).world.next_object_id == u32::MAX ==> *final(self) == *old(self),
            final(self).sys_event == old(self).sys_event,
            same_round(*final(self), *old(self)),
    {
        let object = Wall::random(
            0,
            (0..self.arena_width, 0..self.arena_height),
            (WALL_MIN_SIZE..WALL_MAX_SIZE, WALL_MIN_SIZE..WALL_MAX_SIZE),
        );
        let ghost before = self.world.objects@;
        let ghost next = self.world.next_object_id;
        self.push_static_object(object);
        proof {
            if next < u32::MAX {
                assert(self.world.objects@.drop_last() =~= before);
            }
        }
    }

    /// Applies the deferred deletions: first in the world, then in the
    /// collision registry, against what the world kept.
    fn cleanup_objects(&mut self)
        requires
            old(self).wf(),
        ensures
            final(self).wf(),
            final(self).world.objects@ == live(old(self).world.objects@),
            final(self).world.next_object_id == old(self).world.next_object_id,
            final(self).sys_collision.objects@ == kept_ids(
                old(self).sys_collision.objects@,
                live(old(self).world.objects@),
            ),
            final(self).sys_event == old(self).sys_event,
            same_round(*final(self), *old(self)),
    {
        self.world.cleanup_objects();
        self.sys_collision.cleanup_objects(&self.world);
    }

    /// Spawns up to `count` collectibles, one per identifier left.
    fn spawn_collectibles(&mut self, count: u64)
        requires
            old(self).wf(),
        ensures
            final(self).wf(),
            ({
                let n0 = old(self).world.objects@.len();
                let next0 = old(self).world.next_object_id;
                let objs = final(self).world.objects@;
                let added = objs.len() - n0;
                &&& objs.len() >= n0
                &&& objs.subrange(0, n0 as int) == old(self).world.objects@
                &&& added <= count
                &&& (next0 + count <= u32::MAX ==> added == count)
                &&& final(self).world.next_object_id == next0 + added
                &&& forall|k: int|
                    n0 <= k < objs.len() ==> spawned_collectible(
                        #[trigger] objs[k],
                        (next0 + k - n0) as u32,
                        old(self).arena_width,
                        old(self).arena_height,
                    )
                &&& forall|x: u32| #[trigger]
                    final(self).sys_collision.objects@.contains(x) <==> old(
                        self,
                    ).sys_collision.objects@.contains(x) || (next0 <= x < next0 + added)
            }),
            final(self).sys_event == old(self).sys_event,
            same_round(*final(self), *old(self)),
    {
        let ghost base = self.world.objects@;
        let ghost n0 = base.len();
        let ghost next0 = self.world.next_object_id;
        let ghost reg0 = self.sys_collision.objects@;
        let mut i: u64 = 0;
        while i < count && self.world.next_object_id < u32::MAX
            invariant
                self.wf(),
                i <= count,
                self.world.objects@.len() >= n0,
                self.world.objects@.subrange(0, n0 as int) == base,
                self.world.next_object_id == next0 + (self.world.objects@.len() - n0),
                self.world.objects@.len() - n0 == i,
                forall|k: int|
                    n0 <= k < self.world.objects@.len() ==> spawned_collectible(
                        #[trigger] self.world.objects@[k],
                        (next0 + k - n0) as u32,
                        old(self).arena_width,
                        old(self).arena_height,
                    ),
                forall|x: u32| #[trigger]
                    self.sys_collision.objects@.contains(x) <==> reg0.contains(x) || (next0 <= x
                        < self.world.next_object_id),
                self.sys_event == old(self).sys_event,
                self.game_over == old(self).game_over,
                self.timer == old(self).timer,
                self.last_time == old(self).last_time,
                self.score_0 == old(self).score_0,
                self.score_1 == old(self).score_1,
                self.arena_width == old(self).arena_width,
                self.arena_height == old(self).arena_height,
            decreases count - i,
        {
            let ghost objs = self.world.objects@;
            self.add_random_collectible();
            proof {
                let now = self.world.objects@;
                assert(now.subrange(0, n0 as int) =~= objs.subrange(0, n0 as int));
                assert forall|k: int| n0 <= k < now.len() implies spawned_collectible(
                    #[trigger] now[k],
                    (next0 + k - n0) as u32,
                    old(self).arena_width,
                    old(self).arena_height,
                ) by {
                    if k < now.len() - 1 {
                        assert(now[k] == now.drop_last()[k]);
                    }
                }
            }
            i += 1;
        }
    }

    /// Advances the round timer to the wall-clock time `now`: one tick once
    /// strictly more than `TICK_MS` passed since the last tick; the round is
    /// over when the timer reaches zero.
    fn advance_timer(&mut self, now: i64)
        requires
            old(self).wf(),
            !old(self).game_over,
        ensures
            final(self).wf(),
            now - old(self).last_time > TICK_MS ==> final(self).timer == old(self).timer - 1
                && final(self).last_time == now,
            now - old(self).last_time <= TICK_MS ==> final(self).timer == old(self).timer
                && final(self).last_time == old(self).last_time,
            final(self).game_over == (final(self).timer == 0),
            final(self).world == old(self).world,
            final(self).sys_collision == old(self).sys_collision,
            final(self).sys_event == old(self).sys_event,
            final(self).score_0 == old(self).score_0,
            final(self).score_1 == old(self).score_1,
            final(self).arena_width == old(self).arena_width,
            final(self).arena_height == old(self).arena_height,
    {
        if now as i128 - self.last_time as i128 > TICK_MS as i128 {
            self.last_time = now;
            self.timer = self.timer - 1;
        }
        if self.timer == 0 {
            self.game_over = true;
        }
    }

    /// One frame of the round, given the frame's input events, its elapsed
    /// time `frame_time` (fixed-point seconds) and the wall-clock time `now`
    /// in milliseconds. Returns whether the round is over; a round that is
    /// over stays as it is.
    ///
    /// In order: the input is published and the bus drained; deferred
    /// deletions are applied; players move; collisions are processed; the
    /// scores of players 0 and 1 are read and one collectible is spawned for
    /// each point gained since the last frame; the timer advances.
    pub fn frame(&mut self, input: Vec<Event>, frame_time: i64, now: i64) -> (r: bool)
        requires
            old(self).wf(),
        ensures
            final(self).wf(),
            r == final(self).game_over,
            old(self).game_over ==> *final(self) == *old(self),
            !old(self).game_over ==> ({
                let ents = frame_entities(*old(self), input@, frame_time as int);
                let reg = frame_registry(*old(self), input@);
                let s0 = score_in(ents, 0);
                let s1 = score_in(ents, 1);
                let gained = gain(s0, old(self).score_0) + gain(s1, old(self).score_1);
                let n0 = ents.len();
                let next0 = old(self).world.next_object_id;
                let objs = final(self).world.objects@;
                let added = objs.len() - n0;
                &&& objs.len() >= n0
                &&& objs.subrange(0, n0 as int) == ents
                &&& added <= gained
                &&& (next0 + gained <= u32::MAX ==> added == gained)
                &&& forall|k: int|
                    n0 <= k < objs.len() ==> spawned_collectible(
                        #[trigger] objs[k],
                        (next0 + k - n0) as u32,
                        old(self).arena_width,
                        old(self).arena_height,
                    )
                &&& forall|x: u32| #[trigger]
                    final(self).sys_collision.objects@.contains(x) <==> reg.contains(x) || (next0
                        <= x < next0 + added)
                &&& final(self).score_0 == s0
                &&& final(self).score_1 == s1
                &&& final(self).sys_event.pending().len() == 0
                &&& final(self).sys_event.subscribers == old(self).sys_event.subscribers
                &&& (now - old(self).last_time > TICK_MS ==> final(self).timer == old(self).timer
                    - 1 && final(self).last_time == now)
                &&& (now - old(self).last_time <= TICK_MS ==> final(self).timer == old(
                    self,
                ).timer && final(self).last_time == old(self).last_time)
                &&& final(self).game_over == (final(self).timer == 0)
            }),
    {
        if self.game_over {
            return true;
        }
        let ghost u0 = *self;
        let mut i: usize = 0;
        while i < input.len()
            invariant
                i <= input@.len(),
                self.sys_event.pending() == u0.sys_event.pending() + input@.subrange(0, i as int),
                self.sys_event.subscribers == u0.sys_event.subscribers,
                self.world == u0.world,
                self.sys_collision == u0.sys_collision,
                self.game_over == u0.game_over,
                self.timer == u0.timer,
                self.last_time == u0.last_time,
                self.score_0 == u0.score_0,
                self.score_1 == u0.score_1,
                self.arena_width == u0.arena_width,
                self.arena_height == u0.arena_height,
            decreases input@.len() - i,
        {
            self.sys_event.publish(input[i]);
            proof {
                assert(u0.sys_event.pending() + input@.subrange(0, i + 1) =~= (
                u0.sys_event.pending() + input@.subrange(0, i as int)).push(input@[i as int]));
            }
            i += 1;
        }
        proof {
            assert(input@.subrange(0, i as int) =~= input@);
        }
        self.sys_event.process_all(&mut self.world);
        self.cleanup_objects();
        self.world.update(frame_time);
        self.sys_collision.process_collisions(&mut self.world);
        let new_s0 = self.world.get_player_score(0);
        let new_s1 = self.world.get_player_score(1);
        let d0: u64 = if new_s0 >= self.score_0 {
            (new_s0 - self.score_0) as u64
        } else {
            0
        };
        let d1: u64 = if new_s1 >= self.score_1 {
            (new_s1 - self.score_1) as u64
        } else {
            0
        };
        let ghost mid = *self;
        self.spawn_collectibles(d0 + d1);
        self.score_0 = new_s0;
        self.score_1 = new_s1;
        self.advance_timer(now);
        proof {
            assert(mid.world.objects@ == frame_entities(u0, input@, frame_time as int));
            assert(mid.sys_collision.objects@ == frame_registry(u0, input@));
        }
        self.game_over
    }

    /// Begins the round's clock at `now`, in milliseconds.
    pub fn start(&mut self, now: i64)
        ensures
            *final(self) == (Universe { last_time: now, ..*old(self) }),
    {
        self.last_time = now;
    }
}

} // verus!
