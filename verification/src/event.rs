//! Events and the bounded event queue.
//!
//! Peripherals produce `(id, arg)` events; the CPU consumes them through the
//! `wait` and `poll` instructions. The queue holds at most
//! [`EVENT_QUEUE_CAPACITY`] events; pushing onto a full queue drops the
//! oldest event.

use vstd::prelude::*;
use crate::isa::DiskId;
use crate::EVENT_QUEUE_CAPACITY;

verus! {

/// An event, as the CPU sees it in registers `A` (id) and `B` (arg).
///
/// Ids: 1 = key-up, 2 = key-down, 3 = screen refresh, 4 = disk 0 finished,
/// 5 = disk 1 finished. For disk events the argument is 0 for success,
/// 1 when no disk is present, 2 when the disk is busy.
#[derive(Debug, PartialEq, Eq, Structural, Copy, Clone)]
pub struct Event {
    pub id: u16,
    pub arg: u16,
}

/// Outcome of a disk instruction, reported as the argument of the
/// completion event.
#[derive(Debug, Copy, Clone, PartialEq, Eq, Structural)]
pub enum DiskResult {
    Completed,
    NotPresent,
    Busy,
}

impl Event {
    pub fn key_up(key: u16) -> (r: Event)
        ensures
            r == (Event { id: 1, arg: key }),
    {
        Event { id: 1, arg: key }
    }

    pub fn key_down(key: u16) -> (r: Event)
        ensures
            r == (Event { id: 2, arg: key }),
    {
        Event { id: 2, arg: key }
    }

    pub fn screen_refresh() -> (r: Event)
        ensures
            r == (Event { id: 3, arg: 0 }),
    {
        Event { id: 3, arg: 0 }
    }

    /// The event a finished (or refused) disk operation enqueues.
    pub open spec fn spec_disk_finished(disk: DiskId, result: DiskResult) -> Event {
        Event {
            id: match disk {
                DiskId::D0 => 4,
                DiskId::D1 => 5,
            },
            arg: match result {
                DiskResult::Completed => 0,
                DiskResult::NotPresent => 1,
                DiskResult::Busy => 2,
            },
        }
    }

    pub fn disk_finished(disk: DiskId, result: DiskResult) -> (r: Event)
        ensures
            r == Event::spec_disk_finished(disk, result),
    {
        let id: u16 = match disk {
            DiskId::D0 => 4,
            DiskId::D1 => 5,
        };
        let arg: u16 = match result {
            DiskResult::Completed => 0,
            DiskResult::NotPresent => 1,
            DiskResult::Busy => 2,
        };
        Event { id, arg }
    }
}

/// What pushing one event does to the queue's contents: append, dropping the
/// oldest event first when the queue is full.
pub open spec fn spec_queue_push(q: Seq<Event>, e: Event) -> Seq<Event> {
    if q.len() < EVENT_QUEUE_CAPACITY as nat {
        q.push(e)
    } else {
        q.subrange(1, q.len() as int).push(e)
    }
}

/// Pushing a whole sequence of events, oldest first.
pub open spec fn spec_queue_push_all(q: Seq<Event>, es: Seq<Event>) -> Seq<Event>
    decreases es.len(),
{
    if es.len() == 0 {
        q
    } else {
        spec_queue_push_all(spec_queue_push(q, es[0]), es.drop_first())
    }
}

/// A fixed-capacity circular event queue; overflow evicts the oldest event.
///
/// Its view is the queued events in order, oldest first.
#[derive(Clone)]
pub struct EventQueue {
    items: Vec<Event>,
    head: usize,
    len: usize,
}

impl View for EventQueue {
    type V = Seq<Event>;

    closed spec fn view(&self) -> Seq<Event> {
        Seq::new(
            self.len as nat,
            |i: int| self.items@[(self.head + i) % (EVENT_QUEUE_CAPACITY as int)],
        )
    }
}

/// `x % 64` for the small values circular indexing produces.
proof fn lemma_mod_capacity(x: int)
    requires
        0 <= x < 2 * EVENT_QUEUE_CAPACITY,
    ensures
        x % (EVENT_QUEUE_CAPACITY as int) == if x < EVENT_QUEUE_CAPACITY {
            x
        } else {
            x - EVENT_QUEUE_CAPACITY
        },
{
    if x < EVENT_QUEUE_CAPACITY {
        assert(x % 64 == x) by (nonlinear_arith)
            requires
                0 <= x < 64,
        ;
    } else {
        assert(x % 64 == x - 64) by (nonlinear_arith)
            requires
                64 <= x < 128,
        ;
    }
}

impl EventQueue {
    /// Storage is allocated in full and indices are in range.
    pub closed spec fn wf(&self) -> bool {
        &&& self.items@.len() == EVENT_QUEUE_CAPACITY
        &&& self.head < EVENT_QUEUE_CAPACITY
        &&& self.len <= EVENT_QUEUE_CAPACITY
    }

    pub fn new() -> (q: EventQueue)
        ensures
            q.wf(),
            q@ == Seq::<Event>::empty(),
    {
        let mut items: Vec<Event> = Vec::new();
        let mut i: usize = 0;
        while i < EVENT_QUEUE_CAPACITY
            invariant
                items@.len() == i,
                i <= EVENT_QUEUE_CAPACITY,
            decreases EVENT_QUEUE_CAPACITY - i,
        {
            items.push(Event { id: 0, arg: 0 });
            i = i + 1;
        }
        let q = EventQueue { items, head: 0, len: 0 };
        proof {
            assert(q@ =~= Seq::<Event>::empty());
        }
        q
    }

    pub fn push(&mut self, event: Event)
        requires
            old(self).wf(),
        ensures
            final(self).wf(),
            final(self)@ == spec_queue_push(old(self)@, event),
    {
        let idx = (self.head + self.len) % EVENT_QUEUE_CAPACITY;
        proof {
            lemma_mod_capacity(self.head + self.len);
        }
        self.items.set(idx, event);
        if self.len == EVENT_QUEUE_CAPACITY {
            let ghost old_view = old(self)@;
            self.head = (self.head + 1) % EVENT_QUEUE_CAPACITY;
            proof {
                lemma_mod_capacity(old(self).head + 1);
                assert forall|i: int| 0 <= i < self@.len() implies self@[i] == spec_queue_push(
                    old_view,
                    event,
                )[i] by {
                    lemma_mod_capacity(self.head + i);
                    lemma_mod_capacity(old(self).head + i + 1);
                    lemma_mod_capacity(old(self).head + old(self).len);
                }
                assert(self@ =~= spec_queue_push(old_view, event));
            }
        } else {
            self.len = self.len + 1;
            proof {
                assert forall|i: int| 0 <= i < self@.len() implies self@[i] == spec_queue_push(
                    old(self)@,
                    event,
                )[i] by {
                    lemma_mod_capacity(self.head + i);
                    lemma_mod_capacity(old(self).head + old(self).len);
                }
                assert(self@ =~= spec_queue_push(old(self)@, event));
            }
        }
    }

    pub fn pop(&mut self) -> (r: Option<Event>)
        requires
            old(self).wf(),
        ensures
            final(self).wf(),
            old(self)@.len() == 0 ==> r is None && final(self)@ == old(self)@,
            old(self)@.len() > 0 ==> r == Some(old(self)@[0]) && final(self)@ == old(
                self,
            )@.drop_first(),
    {
        if self.len == 0 {
            None
        } else {
            // index modulo capacity so that the bounds check is trivial
            let event = self.items[self.head % EVENT_QUEUE_CAPACITY];
            proof {
                lemma_mod_capacity(self.head as int);
            }
            self.head = (self.head + 1) % EVENT_QUEUE_CAPACITY;
            self.len = self.len - 1;
            proof {
                lemma_mod_capacity(old(self).head + 1);
                assert forall|i: int| 0 <= i < self@.len() implies self@[i] == old(
                    self,
                )@.drop_first()[i] by {
                    lemma_mod_capacity(self.head + i);
                    lemma_mod_capacity(old(self).head + i + 1);
                }
                assert(self@ =~= old(self)@.drop_first());
            }
            Some(event)
        }
    }
}

/// The number of events a queue retains from `all` queued events.
pub open spec fn spec_retained(all: nat) -> nat {
    if all <= EVENT_QUEUE_CAPACITY as nat {
        all
    } else {
        EVENT_QUEUE_CAPACITY as nat
    }
}

/// After any sequence of pushes the queue holds at most
/// [`EVENT_QUEUE_CAPACITY`] events, and exactly the most recent ones, in
/// FIFO order.
pub proof fn lemma_event_queue_bound(q: Seq<Event>, es: Seq<Event>)
    requires
        q.len() <= EVENT_QUEUE_CAPACITY,
    ensures
        spec_queue_push_all(q, es).len() == spec_retained(q.len() + es.len()),
        spec_queue_push_all(q, es) == (q + es).subrange(
            q.len() + es.len() - spec_retained(q.len() + es.len()),
            (q.len() + es.len()) as int,
        ),
    decreases es.len(),
{
    if es.len() == 0 {
        assert(spec_queue_push_all(q, es) =~= (q + es).subrange(
            q.len() + es.len() - spec_retained(q.len() + es.len()),
            (q.len() + es.len()) as int,
        ));
    } else {
        let q1 = spec_queue_push(q, es[0]);
        lemma_event_queue_bound(q1, es.drop_first());
        assert(q1 + es.drop_first() =~= if q.len() < EVENT_QUEUE_CAPACITY {
            q + es
        } else {
            (q + es).drop_first()
        });
        if q.len() < EVENT_QUEUE_CAPACITY {
            assert(spec_queue_push_all(q, es) =~= (q + es).subrange(
                q.len() + es.len() - spec_retained(q.len() + es.len()),
                (q.len() + es.len()) as int,
            ));
        } else {
            assert((q1 + es.drop_first()).subrange(
                q1.len() + es.drop_first().len() - spec_retained(
                    q1.len() + es.drop_first().len(),
                ),
                (q1.len() + es.drop_first().len()) as int,
            ) =~= (q + es).subrange(
                q.len() + es.len() - spec_retained(q.len() + es.len()),
                (q.len() + es.len()) as int,
            ));
        }
    }
}

} // verus!
