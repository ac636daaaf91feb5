//! The event bus: a FIFO queue of events and the ordered list of entities
//! that listen to them.
use crate::collidable::Collidable;
use crate::event::Event;
use crate::world::{all_wf, index_of, lemma_same_ids_keep_wf, position_of, same_ids, World};
use std::collections::VecDeque;
use vstd::prelude::*;

verus! {

/// The entities after `e` reached the first `k` subscribers, in order; a
/// subscriber gone from `s` is skipped.
pub open spec fn deliver(s: Seq<Collidable>, subs: Seq<u32>, e: Event, k: nat) -> Seq<
    Collidable,
>
    decreases k,
{
    if k == 0 {
        s
    } else {
        let t = deliver(s, subs, e, (k - 1) as nat);
        let i = index_of(t, subs[k - 1]);
        if i >= 0 {
            t.update(i, t[i].handled(e))
        } else {
            t
        }
    }
}

/// The entities after every event of `events`, in order, reached every
/// subscriber.
pub open spec fn deliver_all(s: Seq<Collidable>, subs: Seq<u32>, events: Seq<Event>) -> Seq<
    Collidable,
>
    decreases events.len(),
{
    if events.len() == 0 {
        s
    } else {
        deliver(deliver_all(s, subs, events.drop_last()), subs, events.last(), subs.len())
    }
}

/// A first-in first-out queue of events. The capacity given to `new` is a
/// hint: the queue grows past it.
pub struct EventQueue {
    events: VecDeque<Event>,
}

impl View for EventQueue {
    type V = Seq<Event>;

    closed spec fn view(&self) -> Seq<Event> {
        self.events@
    }
}

impl EventQueue {
    pub fn new(max_size: usize) -> (r: Self)
        ensures
            r@ == Seq::<Event>::empty(),
    {
        EventQueue { events: VecDeque::with_capacity(max_size) }
    }

    /// Appends `event` at the back.
    pub fn push(&mut self, event: Event)
        ensures
            final(self)@ == old(self)@.push(event),
    {
        self.events.push_back(event);
    }

    /// Takes the event at the front, if any.
    pub fn pop(&mut self) -> (r: Option<Event>)
        ensures
            old(self)@.len() == 0 ==> r is None && final(self)@ == old(self)@,
            old(self)@.len() > 0 ==> r == Some(old(self)@[0]) && final(self)@ == old(
                self,
            )@.subrange(1, old(self)@.len() as int),
    {
        self.events.pop_front()
    }
}

/// The event bus. Listeners are entities of the world, by identifier, in
/// the order in which they subscribed.
pub struct SysEvent {
    pub queue: EventQueue,
    pub subscribers: Vec<u32>,
}

impl SysEvent {
    /// The events published and not yet delivered, oldest first.
    pub open spec fn pending(&self) -> Seq<Event> {
        self.queue@
    }

    pub fn new() -> (r: Self)
        ensures
            r.pending() == Seq::<Event>::empty(),
            r.subscribers@ == Seq::<u32>::empty(),
    {
        SysEvent { queue: EventQueue::new(100), subscribers: Vec::new() }
    }

    /// Adds the entity with identifier `id` as the last listener.
    pub fn subscribe(&mut self, id: u32)
        ensures
            final(self).subscribers@ == old(self).subscribers@.push(id),
            final(self).pending() == old(self).pending(),
    {
        self.subscribers.push(id);
    }

    /// Queues `event` for the next `process_all`.
    pub fn publish(&mut self, event: Event)
        ensures
            final(self).pending() == old(self).pending().push(event),
            final(self).subscribers == old(self).subscribers,
    {
        self.queue.push(event);
    }

    /// Delivers the queued events, oldest first, each to every listener in
    /// subscription order before the next event; the queue is left empty.
    pub fn process_all(&mut self, world: &mut World)
        requires
            old(world).wf(),
        ensures
            final(world).wf(),
            final(world).objects@ == deliver_all(
                old(world).objects@,
                old(self).subscribers@,
                old(self).pending(),
            ),
            final(world).next_object_id == old(world).next_object_id,
            final(self).pending() == Seq::<Event>::empty(),
            final(self).subscribers == old(self).subscribers,
    {
        let ghost orig = world.objects@;
        let ghost w0 = *world;
        let ghost orig_q = self.queue@;
        let ghost mut consumed: Seq<Event> = Seq::empty();
        loop
            invariant
                consumed + self.queue@ == orig_q,
                world.objects@ == deliver_all(orig, self.subscribers@, consumed),
                self.subscribers == old(self).subscribers,
                same_ids(world.objects@, orig),
                all_wf(world.objects@),
                w0.wf(),
                w0.objects@ == orig,
                world.next_object_id == w0.next_object_id,
            ensures
                self.queue@ == Seq::<Event>::empty(),
                consumed == orig_q,
            decreases self.queue@.len(),
        {
            let ghost before = self.queue@;
            match self.queue.pop() {
                Some(event) => {
                    self.process(&event, world);
                    proof {
                        assert(before == seq![event] + self.queue@);
                        assert(consumed.push(event) + self.queue@ =~= orig_q);
                        assert(consumed.push(event).drop_last() =~= consumed);
                        consumed = consumed.push(event);
                    }
                },
                None => {
                    proof {
                        assert(consumed =~= orig_q);
                        assert(self.queue@ =~= Seq::<Event>::empty());
                    }
                    break ;
                },
            }
        }
        proof {
            lemma_same_ids_keep_wf(w0, world.objects@);
        }
    }

    fn process(&self, event: &Event, world: &mut World)
        requires
            all_wf(old(world).objects@),
        ensures
            final(world).objects@ == deliver(
                old(world).objects@,
                self.subscribers@,
                *event,
                self.subscribers@.len(),
            ),
            same_ids(final(world).objects@, old(world).objects@),
            all_wf(final(world).objects@),
            final(world).next_object_id == old(world).next_object_id,
    {
        let ghost start = world.objects@;
        let mut k: usize = 0;
        while k < self.subscribers.len()
            invariant
                k <= self.subscribers@.len(),
                world.objects@ == deliver(start, self.subscribers@, *event, k as nat),
                same_ids(world.objects@, start),
                all_wf(world.objects@),
                world.next_object_id == old(world).next_object_id,
            decreases self.subscribers@.len() - k,
        {
            let ghost cur = world.objects@;
            match position_of(&world.objects, self.subscribers[k]) {
                Some(i) => {
                    let mut obj = world.objects[i];
                    obj.handle_busevent(event);
                    world.objects.set(i, obj);
                    proof {
                        assert forall|j: int| 0 <= j < world.objects@.len() implies #[trigger]
                            world.objects@[j].attrs().id == start[j].attrs().id by {
                            assert(cur[j].attrs().id == start[j].attrs().id);
                        }
                    }
                },
                None => {},
            }
            k += 1;
        }
    }
}

} // verus!
