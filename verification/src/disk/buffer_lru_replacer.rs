use std::collections::VecDeque;
use vstd::prelude::*;

verus! {

/// Index of a frame in the buffer pool.
pub type FrameId = usize;

/// Tracks the frames that may be evicted, oldest unpinned first.
pub struct LRUReplacer {
    entries: VecDeque<FrameId>,
}

/// The queue after `unpin(frame_id)`: the frame joins the back unless it is already queued.
pub open spec fn spec_unpin(q: Seq<FrameId>, frame_id: FrameId) -> Seq<FrameId> {
    if q.contains(frame_id) {
        q
    } else {
        q.push(frame_id)
    }
}

/// The queue after `pin(frame_id)`: the frame leaves the queue.
pub open spec fn spec_pin(q: Seq<FrameId>, frame_id: FrameId) -> Seq<FrameId> {
    q.remove_value(frame_id)
}

impl View for LRUReplacer {
    type V = Seq<FrameId>;

    closed spec fn view(&self) -> Seq<FrameId> {
        self.entries@
    }
}

impl LRUReplacer {
    /// Every frame occurs at most once in the queue.
    pub open spec fn wf(&self) -> bool {
        self@.no_duplicates()
    }

    pub fn new(capacity: usize) -> (r: Self)
        ensures
            r@ == Seq::<FrameId>::empty(),
            r.wf(),
    {
        Self { entries: VecDeque::with_capacity(capacity) }
    }

    /// Removes and returns the frame that was unpinned the longest time ago.
    pub fn victim(&mut self) -> (r: Option<FrameId>)
        ensures
            match r {
                Some(f) => old(self)@.len() > 0 && f == old(self)@[0] && final(self)@ == old(
                    self,
                )@.drop_first(),
                None => old(self)@.len() == 0 && final(self)@ == old(self)@,
            },
            old(self).wf() ==> final(self).wf(),
    {
        let r = self.entries.pop_front();
        proof {
            if r is Some {
                assert(self.entries@ =~= old(self).entries@.drop_first());
            }
        }
        r
    }

    /// The frame is in use: it may no longer be chosen as a victim.
    pub fn pin(&mut self, frame_id: FrameId)
        ensures
            final(self)@ == spec_pin(old(self)@, frame_id),
            !final(self)@.contains(frame_id) || !old(self).wf(),
            old(self).wf() ==> final(self).wf(),
    {
        let ghost q = self.entries@;
        let len = self.entries.len();
        let mut i: usize = 0;
        while i < len
            invariant
                len == q.len(),
                self.entries@ == q,
                i <= len,
                forall|j: int| 0 <= j < i ==> q[j] != frame_id,
            ensures
                i <= len,
                self.entries@ == q,
                forall|j: int| 0 <= j < i ==> q[j] != frame_id,
                i < len ==> q[i as int] == frame_id,
            decreases len - i,
        {
            if self.entries[i] == frame_id {
                break;
            }
            i = i + 1;
        }
        proof {
            q.index_of_first_ensures(frame_id);
        }
        if i < len {
            proof {
                assert(q.contains(frame_id));
                let k = q.index_of_first(frame_id).unwrap();
                assert(k == i as int) by {
                    if k < i as int {
                    } else if k > i as int {
                    }
                }
            }
            self.entries.remove(i);
            proof {
                if q.no_duplicates() {
                    assert forall|j: int| 0 <= j < self.entries@.len() implies self.entries@[j]
                        != frame_id by {
                        if j < i as int {
                        } else {
                            assert(q[j + 1] != q[i as int]);
                        }
                    }
                    assert forall|a: int, b: int|
                        0 <= a < self.entries@.len() && 0 <= b < self.entries@.len() && a
                            != b implies self.entries@[a] != self.entries@[b] by {
                        let a2 = if a < i as int { a } else { a + 1 };
                        let b2 = if b < i as int { b } else { b + 1 };
                        assert(q[a2] != q[b2]);
                    }
                }
            }
        } else {
            proof {
                assert(!q.contains(frame_id));
            }
        }
    }

    /// The frame is free for eviction: it joins the back of the queue unless already queued.
    pub fn unpin(&mut self, frame_id: FrameId)
        ensures
            final(self)@ == spec_unpin(old(self)@, frame_id),
            old(self).wf() ==> final(self).wf(),
    {
        let ghost q = self.entries@;
        let len = self.entries.len();
        let mut i: usize = 0;
        let mut found = false;
        while i < len
            invariant
                len == q.len(),
                self.entries@ == q,
                i <= len,
                found ==> q.contains(frame_id),
                !found ==> forall|j: int| 0 <= j < i ==> q[j] != frame_id,
            ensures
                self.entries@ == q,
                found ==> q.contains(frame_id),
                !found ==> forall|j: int| 0 <= j < len ==> q[j] != frame_id,
            decreases len - i,
        {
            if self.entries[i] == frame_id {
                found = true;
                assert(q[i as int] == frame_id);
                break;
            }
            i = i + 1;
        }
        if !found {
            self.entries.push_back(frame_id);
            proof {
                assert(!q.contains(frame_id));
                if q.no_duplicates() {
                    assert forall|a: int, b: int|
                        0 <= a < self.entries@.len() && 0 <= b < self.entries@.len() && a
                            != b implies self.entries@[a] != self.entries@[b] by {
                        if a == q.len() as int {
                            assert(self.entries@[b] == q[b]);
                        } else if b == q.len() as int {
                            assert(self.entries@[a] == q[a]);
                        }
                    }
                }
            }
        }
    }

    /// Number of frames that may be evicted.
    pub fn size(&self) -> (r: usize)
        ensures
            r == self@.len(),
    {
        self.entries.len()
    }
}

/// Unpinning a frame that is not queued and then pinning it again leaves the queue as it
/// was.
pub proof fn lemma_pin_undoes_unpin(q: Seq<FrameId>, frame_id: FrameId)
    requires
        !q.contains(frame_id),
    ensures
        spec_pin(spec_unpin(q, frame_id), frame_id) == q,
{
    let p = q.push(frame_id);
    p.index_of_first_ensures(frame_id);
    let k = p.index_of_first(frame_id).unwrap();
    assert(p[q.len() as int] == frame_id);
    assert(k == q.len() as int) by {
        if k < q.len() as int {
            assert(p[k] == q[k]);
        }
    }
    assert(p.remove(k) =~= q);
}

/// Unpinning is idempotent: a second unpin of the same frame changes nothing.
pub proof fn lemma_unpin_idempotent(q: Seq<FrameId>, frame_id: FrameId)
    ensures
        spec_unpin(spec_unpin(q, frame_id), frame_id) == spec_unpin(q, frame_id),
{
    assert(q.push(frame_id)[q.len() as int] == frame_id);
}

/// Pinning only takes frames out of the queue.
pub proof fn lemma_pin_subset(q: Seq<FrameId>, frame_id: FrameId)
    ensures
        forall|x: FrameId| #[trigger] spec_pin(q, frame_id).contains(x) ==> q.contains(x),
{
    q.index_of_first_ensures(frame_id);
    if q.contains(frame_id) {
        let k = q.index_of_first(frame_id).unwrap();
        assert forall|x: FrameId| #[trigger] spec_pin(q, frame_id).contains(x) implies q.contains(x) by {
            let r = q.remove(k);
            let i = choose|i: int| 0 <= i < r.len() && r[i] == x;
            if i < k {
                assert(q[i] == x);
            } else {
                assert(q[i + 1] == x);
            }
        }
    }
}

/// Pinning a frame that is not queued changes nothing.
pub proof fn lemma_pin_absent(q: Seq<FrameId>, frame_id: FrameId)
    requires
        !q.contains(frame_id),
    ensures
        spec_pin(q, frame_id) == q,
{
    q.index_of_first_ensures(frame_id);
}

/// What pinning does to a queue without duplicates: exactly the pinned frame leaves.
proof fn lemma_pin_contents(q: Seq<FrameId>, frame_id: FrameId)
    requires
        q.no_duplicates(),
    ensures
        spec_pin(q, frame_id).no_duplicates(),
        forall|x: FrameId| #[trigger] spec_pin(q, frame_id).contains(x) <==> (q.contains(x) && x
            != frame_id),
{
    q.index_of_first_ensures(frame_id);
    if q.contains(frame_id) {
        let k = q.index_of_first(frame_id).unwrap();
        let r = q.remove(k);
        assert forall|i: int, j: int| 0 <= i < r.len() && 0 <= j < r.len() && i != j implies r[i]
            != r[j] by {
            let qi = if i < k { i } else { i + 1 };
            let qj = if j < k { j } else { j + 1 };
            assert(r[i] == q[qi] && r[j] == q[qj]);
        }
        assert forall|x: FrameId| #[trigger] r.contains(x) <==> (q.contains(x) && x != frame_id) by {
            if r.contains(x) {
                let i = choose|i: int| 0 <= i < r.len() && r[i] == x;
                let qi = if i < k { i } else { i + 1 };
                assert(q[qi] == x);
                assert(qi != k);
            }
            if q.contains(x) && x != frame_id {
                let i = choose|i: int| 0 <= i < q.len() && q[i] == x;
                assert(i != k);
                if i < k {
                    assert(r[i] == x);
                } else {
                    assert(r[i - 1] == x);
                }
            }
        }
    }
}

/// What unpinning does to a queue without duplicates: the frame is queued once.
proof fn lemma_unpin_contents(q: Seq<FrameId>, frame_id: FrameId)
    requires
        q.no_duplicates(),
    ensures
        spec_unpin(q, frame_id).no_duplicates(),
        forall|x: FrameId| #[trigger] spec_unpin(q, frame_id).contains(x) <==> (q.contains(x) || x
            == frame_id),
{
    if !q.contains(frame_id) {
        let r = q.push(frame_id);
        assert(r[q.len() as int] == frame_id);
        assert forall|x: FrameId| #[trigger] r.contains(x) <==> (q.contains(x) || x == frame_id) by {
            if r.contains(x) {
                let i = choose|i: int| 0 <= i < r.len() && r[i] == x;
                if i < q.len() {
                    assert(q[i] == x);
                }
            }
            if q.contains(x) {
                let i = choose|i: int| 0 <= i < q.len() && q[i] == x;
                assert(r[i] == x);
            }
        }
    }
}

/// What taking the victim does to a queue without duplicates: exactly the front frame leaves.
proof fn lemma_victim_contents(q: Seq<FrameId>)
    requires
        q.no_duplicates(),
        q.len() > 0,
    ensures
        q.drop_first().no_duplicates(),
        forall|x: FrameId| #[trigger] q.drop_first().contains(x) <==> (q.contains(x) && x != q[0]),
{
    let r = q.drop_first();
    assert forall|x: FrameId| #[trigger] r.contains(x) <==> (q.contains(x) && x != q[0]) by {
        if r.contains(x) {
            let i = choose|i: int| 0 <= i < r.len() && r[i] == x;
            assert(q[i + 1] == x);
        }
        if q.contains(x) && x != q[0] {
            let i = choose|i: int| 0 <= i < q.len() && q[i] == x;
            assert(r[i - 1] == x);
        }
    }
}

/// One call on a replacer: `pin`, `unpin`, or `victim` with the frame it returned
/// (`None` when the queue was empty).
pub enum ReplacerEvent {
    Pin(FrameId),
    Unpin(FrameId),
    Victim(Option<FrameId>),
}

/// The queue after a sequence of calls, as the contracts of the calls give it.
pub open spec fn replay(events: Seq<ReplacerEvent>) -> Seq<FrameId>
    decreases events.len(),
{
    if events.len() == 0 {
        Seq::empty()
    } else {
        let q = replay(events.drop_last());
        match events.last() {
            ReplacerEvent::Pin(f) => spec_pin(q, f),
            ReplacerEvent::Unpin(f) => spec_unpin(q, f),
            ReplacerEvent::Victim(_) => if q.len() > 0 {
                q.drop_first()
            } else {
                q
            },
        }
    }
}

/// Each `victim` event records what `victim` returned at that point: the front of the queue.
pub open spec fn victims_recorded(events: Seq<ReplacerEvent>) -> bool
    decreases events.len(),
{
    if events.len() == 0 {
        true
    } else {
        let q = replay(events.drop_last());
        &&& victims_recorded(events.drop_last())
        &&& (events.last() matches ReplacerEvent::Victim(v) ==> v == (if q.len() > 0 {
            Some(q[0])
        } else {
            None::<FrameId>
        }))
    }
}

/// Whether the last of the events that name frame `f` (a pin or unpin of it, or `victim`
/// returning it) is an unpin.
pub open spec fn last_event_unpins(events: Seq<ReplacerEvent>, f: FrameId) -> bool
    decreases events.len(),
{
    if events.len() == 0 {
        false
    } else {
        match events.last() {
            ReplacerEvent::Unpin(g) => if g == f {
                true
            } else {
                last_event_unpins(events.drop_last(), f)
            },
            ReplacerEvent::Pin(g) => if g == f {
                false
            } else {
                last_event_unpins(events.drop_last(), f)
            },
            ReplacerEvent::Victim(v) => if v == Some(f) {
                false
            } else {
                last_event_unpins(events.drop_last(), f)
            },
        }
    }
}

/// After any sequence of calls on a new replacer, the queue holds each frame at most once,
/// holds exactly the frames whose last event was an unpin, whatever the capacity, and
/// `size` counts them.
pub proof fn lemma_replay_size(events: Seq<ReplacerEvent>)
    requires
        victims_recorded(events),
    ensures
        replay(events).no_duplicates(),
        forall|f: FrameId| #[trigger] replay(events).contains(f) <==> last_event_unpins(events, f),
        replay(events).len() == replay(events).to_set().len(),
        replay(events).to_set() == Set::new(|f: FrameId| last_event_unpins(events, f)),
    decreases events.len(),
{
    if events.len() > 0 {
        let prev = events.drop_last();
        lemma_replay_size(prev);
        let q = replay(prev);
        match events.last() {
            ReplacerEvent::Pin(g) => lemma_pin_contents(q, g),
            ReplacerEvent::Unpin(g) => lemma_unpin_contents(q, g),
            ReplacerEvent::Victim(v) => {
                if q.len() > 0 {
                    lemma_victim_contents(q);
                }
            },
        }
    }
    let r = replay(events);
    r.unique_seq_to_set();
    assert(r.to_set() =~= Set::new(|f: FrameId| last_event_unpins(events, f)));
}

} // verus!
