//! The reorder buffer: a bounded buffer of decoded pictures that gives them
//! back smallest presentation time first.
//!
//! The buffer is modelled by the sequence of its slots in the order in which
//! they were pushed. Among slots with equal presentation time the one pushed
//! first leaves first.

use crate::picture::ReorderSlot;
use vstd::prelude::*;

verus! {

/// Capacity of a buffer built by `Default`.
pub const DEFAULT_CAPACITY: usize = 8;

/// `k` is the first position among the first `n` slots of `s` that holds
/// their smallest presentation time.
pub open spec fn is_first_min_of_prefix(s: Seq<ReorderSlot>, n: int, k: int) -> bool {
    &&& 0 <= k < n <= s.len()
    &&& forall|j: int|
        0 <= j < n ==> s[k].presentation_time <= (#[trigger] s[j]).presentation_time
    &&& forall|j: int| 0 <= j < k ==> s[k].presentation_time < (#[trigger] s[j]).presentation_time
}

/// `k` is the position of the slot that leaves `s` next: no slot has a smaller
/// presentation time, and every slot pushed before it has a larger one.
pub open spec fn is_first_min(s: Seq<ReorderSlot>, k: int) -> bool {
    is_first_min_of_prefix(s, s.len() as int, k)
}

/// The position of the slot that leaves `s` next. Meaningful for a non-empty
/// `s`, where it is the one position that `is_first_min` accepts.
pub open spec fn first_min(s: Seq<ReorderSlot>) -> int {
    choose|k: int| is_first_min(s, k)
}

/// What is left of `s` once the next slot has left.
pub open spec fn without_first_min(s: Seq<ReorderSlot>) -> Seq<ReorderSlot> {
    s.remove(first_min(s))
}

proof fn lemma_first_min_of_prefix_exists(s: Seq<ReorderSlot>, n: int) -> (k: int)
    requires
        0 < n <= s.len(),
    ensures
        is_first_min_of_prefix(s, n, k),
    decreases n,
{
    if n == 1 {
        0
    } else {
        let k = lemma_first_min_of_prefix_exists(s, n - 1);
        if s[n - 1].presentation_time < s[k].presentation_time {
            n - 1
        } else {
            k
        }
    }
}

/// A non-empty sequence of slots has a slot that leaves next.
pub proof fn lemma_first_min_exists(s: Seq<ReorderSlot>)
    requires
        s.len() > 0,
    ensures
        is_first_min(s, first_min(s)),
{
    let k = lemma_first_min_of_prefix_exists(s, s.len() as int);
    assert(is_first_min(s, k));
}

/// Only one position qualifies as the next to leave.
pub proof fn lemma_first_min_unique(s: Seq<ReorderSlot>, k: int)
    requires
        is_first_min(s, k),
    ensures
        k == first_min(s),
{
    let m = first_min(s);
    assert(is_first_min(s, m));
    if m < k {
        assert(s[k].presentation_time < s[m].presentation_time);
        assert(s[m].presentation_time <= s[k].presentation_time);
    } else if k < m {
        assert(s[m].presentation_time < s[k].presentation_time);
        assert(s[k].presentation_time <= s[m].presentation_time);
    }
}

/// A bounded min-priority buffer of slots, keyed by presentation time.
///
/// It never holds more slots than its capacity: `push` turns a slot away
/// rather than grow beyond it.
pub struct ReorderBuffer {
    slots: Vec<ReorderSlot>,
    capacity: usize,
}

impl View for ReorderBuffer {
    type V = Seq<ReorderSlot>;

    /// The slots held, in the order in which they were pushed.
    closed spec fn view(&self) -> Seq<ReorderSlot> {
        self.slots@
    }
}

impl ReorderBuffer {
    #[verifier::type_invariant]
    spec fn bounded(self) -> bool {
        self.slots@.len() <= self.capacity
    }

    /// The largest number of slots the buffer will hold.
    pub closed spec fn spec_capacity(&self) -> usize {
        self.capacity
    }

    /// An empty buffer that holds up to `capacity` slots.
    pub fn new(capacity: usize) -> (buffer: Self)
        ensures
            buffer@ == Seq::<ReorderSlot>::empty(),
            buffer.spec_capacity() == capacity,
    {
        ReorderBuffer { slots: Vec::new(), capacity }
    }

    #[verifier::when_used_as_spec(spec_capacity)]
    pub fn capacity(&self) -> (k: usize)
        ensures
            k == self.spec_capacity(),
    {
        self.capacity
    }

    /// Current occupancy.
    pub fn len(&self) -> (n: usize)
        ensures
            n == self@.len(),
            n <= self.spec_capacity(),
    {
        proof {
            use_type_invariant(self);
        }
        self.slots.len()
    }

    pub fn is_empty(&self) -> (b: bool)
        ensures
            b <==> self@.len() == 0,
    {
        self.slots.len() == 0
    }

    pub fn is_full(&self) -> (b: bool)
        ensures
            b <==> self@.len() == self.spec_capacity(),
    {
        proof {
            use_type_invariant(self);
        }
        self.slots.len() >= self.capacity
    }

    /// Adds `slot` behind the slots already held, unless the buffer is full:
    /// then the slot is handed back and the buffer stays as it was.
    pub fn push(&mut self, slot: ReorderSlot) -> (r: Result<(), ReorderSlot>)
        ensures
            final(self).spec_capacity() == old(self).spec_capacity(),
            final(self)@.len() <= final(self).spec_capacity(),
            old(self)@.len() < old(self).spec_capacity() ==> r is Ok && final(self)@ == old(
                self,
            )@.push(slot),
            old(self)@.len() >= old(self).spec_capacity() ==> r == Err::<(), ReorderSlot>(slot)
                && final(self)@ == old(self)@,
    {
        proof {
            use_type_invariant(&*self);
        }
        if self.slots.len() < self.capacity {
            let mut slots: Vec<ReorderSlot> = Vec::new();
            std::mem::swap(&mut slots, &mut self.slots);
            slots.push(slot);
            self.slots = slots;
            Ok(())
        } else {
            Err(slot)
        }
    }

    /// Removes and returns the slot with the smallest presentation time, the
    /// one pushed first among equals; `None` when the buffer is empty.
    pub fn pop_min(&mut self) -> (r: Option<ReorderSlot>)
        ensures
            final(self).spec_capacity() == old(self).spec_capacity(),
            final(self)@.len() <= final(self).spec_capacity(),
            old(self)@.len() == 0 ==> r is None && final(self)@ == old(self)@,
            old(self)@.len() > 0 ==> r == Some(old(self)@[first_min(old(self)@)]) && final(self)@
                == without_first_min(old(self)@),
    {
        proof {
            use_type_invariant(&*self);
        }
        let n: usize = self.slots.len();
        if n == 0 {
            return None;
        }
        let mut best: usize = 0;
        let mut i: usize = 1;
        while i < n
            invariant
                n == self.slots@.len(),
                1 <= i <= n,
                is_first_min_of_prefix(self.slots@, i as int, best as int),
            decreases n - i,
        {
            if self.slots[i].presentation_time < self.slots[best].presentation_time {
                best = i;
            }
            i += 1;
        }
        proof {
            lemma_first_min_unique(self.slots@, best as int);
        }
        let mut slots: Vec<ReorderSlot> = Vec::new();
        std::mem::swap(&mut slots, &mut self.slots);
        let slot = slots.remove(best);
        self.slots = slots;
        Some(slot)
    }
}

impl Default for ReorderBuffer {
    /// An empty buffer of the default capacity.
    fn default() -> (buffer: Self)
        ensures
            buffer@ == Seq::<ReorderSlot>::empty(),
            buffer.spec_capacity() == DEFAULT_CAPACITY,
    {
        ReorderBuffer::new(DEFAULT_CAPACITY)
    }
}

} // verus!
