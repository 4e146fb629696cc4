//! Bounded sample windows: the fixed-capacity buffers behind the charts.

use crate::fifo::{
    counter_queue_capacity, counter_queue_force, counter_queue_items, counter_queue_vec,
    counter_queue_with_capacity, sample_queue_capacity, sample_queue_force, sample_queue_items,
    sample_queue_push, sample_queue_vec, sample_queue_with_capacity, MAX_CAPACITY,
    MAX_COUNTER_CAPACITY,
};
use queue::Queue;
use vstd::prelude::*;

verus! {

/// Why a window could not be made.
#[derive(Debug, Clone, Copy, PartialEq, Eq, Structural)]
pub enum WindowError {
    /// A window has to hold at least one sample.
    ZeroCapacity,
    /// No buffer of that many items can be allocated on this machine.
    CapacityTooLarge,
}

/// The samples `values` with positions `0, 1, ..` given in order.
pub open spec fn numbered(values: Seq<i128>) -> Seq<(u64, i128)> {
    Seq::new(values.len(), |i: int| (i as u64, values[i]))
}

/// The values of `samples`, in order and without their positions.
pub open spec fn values_of(samples: Seq<(u64, i128)>) -> Seq<i128> {
    Seq::new(samples.len(), |i: int| samples[i].1)
}

/// Whether the positions of `samples` are `0, 1, ..` in order.
pub open spec fn contiguous(samples: Seq<(u64, i128)>) -> bool {
    forall|i: int| 0 <= i < samples.len() ==> (#[trigger] samples[i]).0 == i
}

/// A window below capacity after `value` was pushed. An empty window is first
/// seeded with the sample `(0, 0)`; the value follows where there is room.
pub open spec fn grown(samples: Seq<(u64, i128)>, capacity: nat, value: i128) -> Seq<(u64, i128)> {
    if samples.len() == 0 {
        if capacity >= 2 {
            seq![(0u64, 0i128), (1u64, value)]
        } else {
            seq![(0u64, 0i128)]
        }
    } else {
        samples.push((samples.len() as u64, value))
    }
}

/// A full window after `value` was pushed: the oldest sample is gone, the
/// others keep their order, `value` comes last, and the positions are
/// numbered anew.
pub open spec fn shifted(samples: Seq<(u64, i128)>, value: i128) -> Seq<(u64, i128)> {
    numbered(values_of(samples).drop_first().push(value))
}

/// A window after `value` was pushed, whatever its fill.
pub open spec fn pushed(samples: Seq<(u64, i128)>, capacity: nat, value: i128) -> Seq<(u64, i128)> {
    if samples.len() < capacity {
        grown(samples, capacity, value)
    } else {
        shifted(samples, value)
    }
}

/// A fixed-capacity, ordered buffer of `(position, value)` samples.
///
/// Positions are synthetic x-coordinates: they always read `0, 1, ..` from
/// the oldest sample to the newest, so a chart drawn from a window is dense.
#[derive(Debug)]
pub struct Window {
    queue: Queue<(u64, i128)>,
    capacity: usize,
}

impl View for Window {
    type V = Seq<(u64, i128)>;

    closed spec fn view(&self) -> Seq<(u64, i128)> {
        sample_queue_items(self.queue)
    }
}

impl Window {
    /// The capacity the window was made with.
    pub closed spec fn limit(&self) -> nat {
        self.capacity as nat
    }

    /// The invariant of a window: a capacity between one and
    /// [`MAX_CAPACITY`], no more samples than that, positions in order.
    pub closed spec fn wf(&self) -> bool {
        &&& 0 < self.capacity <= MAX_CAPACITY
        &&& sample_queue_capacity(self.queue) == Some(self.capacity)
        &&& self@.len() <= self.capacity
        &&& contiguous(self@)
    }

    /// What `wf` says of the samples and the capacity.
    pub proof fn lemma_wf(&self)
        requires
            self.wf(),
        ensures
            0 < self.limit() <= MAX_CAPACITY,
            self@.len() <= self.limit(),
            contiguous(self@),
    {
    }

    /// An empty window of the given capacity. A capacity of zero is
    /// rejected, and so is one above [`MAX_CAPACITY`], for which no buffer
    /// can be allocated.
    pub fn with_capacity(capacity: usize) -> (r: Result<Window, WindowError>)
        ensures
            match r {
                Ok(w) => {
                    &&& 0 < capacity <= MAX_CAPACITY
                    &&& w.wf()
                    &&& w.limit() == capacity
                    &&& w@ == Seq::<(u64, i128)>::empty()
                },
                Err(WindowError::ZeroCapacity) => capacity == 0,
                Err(WindowError::CapacityTooLarge) => capacity > MAX_CAPACITY,
            },
    {
        if capacity == 0 {
            Err(WindowError::ZeroCapacity)
        } else if capacity > MAX_CAPACITY {
            Err(WindowError::CapacityTooLarge)
        } else {
            Ok(Window { queue: sample_queue_with_capacity(capacity), capacity })
        }
    }

    /// The capacity the window was made with.
    pub fn capacity(&self) -> (c: usize)
        ensures
            c == self.limit(),
    {
        self.capacity
    }

    /// The number of samples held.
    pub fn len(&self) -> (n: usize)
        ensures
            n == self@.len(),
    {
        sample_queue_vec(&self.queue).len()
    }

    /// The samples, oldest first. Reading them changes nothing.
    pub fn snapshot(&self) -> (samples: &Vec<(u64, i128)>)
        ensures
            samples@ == self@,
    {
        sample_queue_vec(&self.queue)
    }

    /// Pushes `value` into a window that is below capacity.
    pub fn push_growing(&mut self, value: i128)
        requires
            old(self).wf(),
            old(self)@.len() < old(self).limit(),
        ensures
            final(self).wf(),
            final(self).limit() == old(self).limit(),
            final(self)@ == grown(old(self)@, old(self).limit(), value),
    {
        let l: usize = sample_queue_vec(&self.queue).len();
        if l == 0 {
            let _ = sample_queue_push(&mut self.queue, (0u64, 0i128));
            let _ = sample_queue_push(&mut self.queue, (1u64, value));
        } else {
            let _ = sample_queue_push(&mut self.queue, (l as u64, value));
        }
        assert(self@ =~= grown(old(self)@, old(self).limit(), value));
    }

    /// Pushes `value` into a full window: the oldest sample is evicted and
    /// every position is rebuilt, so that they read `0, 1, ..` again.
    pub fn push_full(&mut self, value: i128)
        requires
            old(self).wf(),
            old(self)@.len() == old(self).limit(),
        ensures
            final(self).wf(),
            final(self).limit() == old(self).limit(),
            final(self)@ == shifted(old(self)@, value),
            final(self)@.len() == old(self).limit(),
            contiguous(final(self)@),
    {
        let _ = sample_queue_force(&mut self.queue, (0u64, value));
        let mut rebuilt = sample_queue_with_capacity(self.capacity);
        let kept = sample_queue_vec(&self.queue);
        let n: usize = kept.len();
        let mut i: usize = 0;
        while i < n
            invariant
                i <= n == kept@.len() <= self.capacity,
                sample_queue_capacity(rebuilt) == Some(self.capacity),
                sample_queue_items(rebuilt) == numbered(values_of(kept@)).take(i as int),
            decreases n - i,
        {
            let _ = sample_queue_push(&mut rebuilt, (i as u64, kept[i].1));
            assert(sample_queue_items(rebuilt) =~= numbered(values_of(kept@)).take(i + 1));
            i += 1;
        }
        assert(values_of(kept@) =~= values_of(old(self)@).drop_first().push(value));
        assert(numbered(values_of(kept@)).take(n as int) =~= numbered(values_of(kept@)));
        self.queue = rebuilt;
    }

    /// Pushes `value` with the variant that fits the fill of the window.
    pub fn push(&mut self, value: i128)
        requires
            old(self).wf(),
        ensures
            final(self).wf(),
            final(self).limit() == old(self).limit(),
            final(self)@ == pushed(old(self)@, old(self).limit(), value),
    {
        if sample_queue_vec(&self.queue).len() < self.capacity {
            self.push_growing(value);
        } else {
            self.push_full(value);
        }
    }
}

/// A counter window after `value` was pushed: appended while there is room,
/// else in place of the oldest counter.
pub open spec fn counted(counters: Seq<u128>, capacity: nat, value: u128) -> Seq<u128> {
    if counters.len() < capacity {
        counters.push(value)
    } else {
        counters.drop_first().push(value)
    }
}

/// A fixed-capacity buffer of raw counters, oldest first. It has no
/// positions and no seed: a chart of it is drawn from the values alone.
#[derive(Debug)]
pub struct CounterWindow {
    queue: Queue<u128>,
    capacity: usize,
}

impl View for CounterWindow {
    type V = Seq<u128>;

    closed spec fn view(&self) -> Seq<u128> {
        counter_queue_items(self.queue)
    }
}

impl CounterWindow {
    /// The capacity the window was made with.
    pub closed spec fn limit(&self) -> nat {
        self.capacity as nat
    }

    /// The invariant of a counter window: a capacity between one and
    /// [`MAX_COUNTER_CAPACITY`], and no more counters than that.
    pub closed spec fn wf(&self) -> bool {
        &&& 0 < self.capacity <= MAX_COUNTER_CAPACITY
        &&& counter_queue_capacity(self.queue) == Some(self.capacity)
        &&& self@.len() <= self.capacity
    }

    /// What `wf` says of the counters and the capacity.
    pub proof fn lemma_wf(&self)
        requires
            self.wf(),
        ensures
            0 < self.limit() <= MAX_COUNTER_CAPACITY,
            self@.len() <= self.limit(),
    {
    }

    /// An empty counter window of the given capacity. A capacity of zero is
    /// rejected, and so is one above [`MAX_COUNTER_CAPACITY`], for which no
    /// buffer can be allocated.
    pub fn with_capacity(capacity: usize) -> (r: Result<CounterWindow, WindowError>)
        ensures
            match r {
                Ok(w) => {
                    &&& 0 < capacity <= MAX_COUNTER_CAPACITY
                    &&& w.wf()
                    &&& w.limit() == capacity
                    &&& w@ == Seq::<u128>::empty()
                },
                Err(WindowError::ZeroCapacity) => capacity == 0,
                Err(WindowError::CapacityTooLarge) => capacity > MAX_COUNTER_CAPACITY,
            },
    {
        if capacity == 0 {
            Err(WindowError::ZeroCapacity)
        } else if capacity > MAX_COUNTER_CAPACITY {
            Err(WindowError::CapacityTooLarge)
        } else {
            Ok(CounterWindow { queue: counter_queue_with_capacity(capacity), capacity })
        }
    }

    /// The capacity the window was made with.
    pub fn capacity(&self) -> (c: usize)
        ensures
            c == self.limit(),
    {
        self.capacity
    }

    /// The number of counters held.
    pub fn len(&self) -> (n: usize)
        ensures
            n == self@.len(),
    {
        counter_queue_vec(&self.queue).len()
    }

    /// The counters, oldest first. Reading them changes nothing.
    pub fn snapshot(&self) -> (counters: &Vec<u128>)
        ensures
            counters@ == self@,
    {
        counter_queue_vec(&self.queue)
    }

    /// Pushes `value`, evicting the oldest counter when the window is full.
    pub fn push(&mut self, value: u128)
        requires
            old(self).wf(),
        ensures
            final(self).wf(),
            final(self).limit() == old(self).limit(),
            final(self)@ == counted(old(self)@, old(self).limit(), value),
    {
        let _ = counter_queue_force(&mut self.queue, value);
    }
}

/// The samples of a fresh window of the given capacity after the values of
/// `values` were pushed one by one, first to last.
pub open spec fn after_pushes(capacity: nat, values: Seq<i128>) -> Seq<(u64, i128)>
    decreases values.len(),
{
    if values.len() == 0 {
        Seq::empty()
    } else {
        pushed(after_pushes(capacity, values.drop_last()), capacity, values.last())
    }
}

/// The smaller of two numbers.
pub open spec fn least(a: nat, b: nat) -> nat {
    if a <= b {
        a
    } else {
        b
    }
}

/// The number of samples after a push: one more than before, two after the
/// very first push, and never more than the capacity.
pub proof fn lemma_pushed_len(samples: Seq<(u64, i128)>, capacity: nat, value: i128)
    requires
        capacity > 0,
        samples.len() <= capacity,
    ensures
        pushed(samples, capacity, value).len() <= capacity,
        pushed(samples, capacity, value).len() == if samples.len() == 0 {
            least(2, capacity)
        } else {
            least(samples.len() + 1, capacity)
        },
{
}

/// A push keeps the positions in order: where they read `0, 1, ..` before,
/// they do so after.
pub proof fn lemma_pushed_contiguous(samples: Seq<(u64, i128)>, capacity: nat, value: i128)
    requires
        0 < capacity <= u64::MAX,
        samples.len() <= capacity,
        contiguous(samples),
    ensures
        contiguous(pushed(samples, capacity, value)),
{
}

/// After a push into a full window the positions are exactly `0, 1, ..,
/// capacity - 1` in order, whatever positions the samples had before. The
/// values have moved one place towards the front, and the new one is last.
pub proof fn lemma_shifted_positions(samples: Seq<(u64, i128)>, value: i128)
    requires
        0 < samples.len() <= u64::MAX,
    ensures
        shifted(samples, value).len() == samples.len(),
        forall|i: int|
            0 <= i < samples.len() ==> (#[trigger] shifted(samples, value)[i]).0 == i,
        forall|i: int|
            0 <= i < samples.len() - 1 ==> (#[trigger] shifted(samples, value)[i]).1
                == samples[i + 1].1,
        shifted(samples, value).last().1 == value,
{
}

/// The first push into a fresh window with room for two samples leaves the
/// zero seed followed by the value pushed.
pub proof fn lemma_first_push(capacity: nat, value: i128)
    requires
        capacity >= 2,
    ensures
        pushed(Seq::empty(), capacity, value) == seq![(0u64, 0i128), (1u64, value)],
        after_pushes(capacity, seq![value]) == seq![(0u64, 0i128), (1u64, value)],
{
    assert(seq![value].drop_last() =~= Seq::<i128>::empty());
    reveal_with_fuel(after_pushes, 2);
}

/// The first push into a fresh window of capacity one leaves the zero seed
/// alone: there is no room for the value.
pub proof fn lemma_first_push_single(value: i128)
    ensures
        pushed(Seq::empty(), 1, value) == seq![(0u64, 0i128)],
{
}

/// The number of samples in a fresh window after any run of pushes: none
/// before the first push, then one more than the pushes made, the seed
/// counted, up to the capacity.
pub proof fn lemma_len_after_pushes(capacity: nat, values: Seq<i128>)
    requires
        capacity > 0,
    ensures
        after_pushes(capacity, values).len() <= capacity,
        after_pushes(capacity, values).len() == if values.len() == 0 {
            0
        } else {
            least(values.len() + 1, capacity)
        },
    decreases values.len(),
{
    if values.len() > 0 {
        lemma_len_after_pushes(capacity, values.drop_last());
        lemma_pushed_len(after_pushes(capacity, values.drop_last()), capacity, values.last());
    }
}

/// The positions in a fresh window read `0, 1, ..` after any run of pushes.
pub proof fn lemma_positions_after_pushes(capacity: nat, values: Seq<i128>)
    requires
        0 < capacity <= u64::MAX,
    ensures
        contiguous(after_pushes(capacity, values)),
    decreases values.len(),
{
    if values.len() > 0 {
        lemma_len_after_pushes(capacity, values.drop_last());
        lemma_positions_after_pushes(capacity, values.drop_last());
        lemma_pushed_contiguous(
            after_pushes(capacity, values.drop_last()),
            capacity,
            values.last(),
        );
    }
}

/// A fresh window holds as many samples as pushes were made, up to the
/// capacity, before the first push and from the push on that fills it. In
/// between the seed makes it one more.
pub proof fn lemma_len_is_least_of_pushes_and_capacity(capacity: nat, values: Seq<i128>)
    requires
        capacity > 0,
        values.len() == 0 || values.len() >= capacity,
    ensures
        after_pushes(capacity, values).len() == least(values.len(), capacity),
{
    lemma_len_after_pushes(capacity, values);
}

} // verus!
