//! The `queue` crate's FIFO, as the windows use it.
//!
//! Nothing in this file is proved. Each function states what the `queue`
//! crate's source shows of the method it calls, over two names per element
//! type: the items a queue holds, oldest first, and the capacity it was made
//! with.

use queue::Queue;
use vstd::prelude::*;

verus! {

/// `queue::Queue`, a FIFO with an optional capacity. Its fields are private
/// to its crate, so a value of it is opaque here.
#[verifier::external_type_specification]
#[verifier::external_body]
#[verifier::reject_recursive_types(T)]
pub struct ExQueue<T>(Queue<T>);

/// Largest capacity of a queue of samples. The backing buffer is allocated
/// at construction, a sample takes at most 32 bytes, and no buffer can take
/// more than `isize::MAX` bytes, which is half of `usize::MAX`.
pub const MAX_CAPACITY: usize = usize::MAX / 64;

/// Largest capacity of a queue of counters, which take 16 bytes each.
pub const MAX_COUNTER_CAPACITY: usize = usize::MAX / 32;

/// The samples held by a queue of `(position, value)` pairs, oldest first.
pub uninterp spec fn sample_queue_items(q: Queue<(u64, i128)>) -> Seq<(u64, i128)>;

/// The capacity of a queue of samples, as `Queue::capacity` reports it.
pub uninterp spec fn sample_queue_capacity(q: Queue<(u64, i128)>) -> Option<usize>;

/// The counters held by a queue of `u128`, oldest first.
pub uninterp spec fn counter_queue_items(q: Queue<u128>) -> Seq<u128>;

/// The capacity of a queue of counters, as `Queue::capacity` reports it.
pub uninterp spec fn counter_queue_capacity(q: Queue<u128>) -> Option<usize>;

/// `Queue::with_capacity`: an empty queue limited to `cap` items. The call
/// panics where the buffer for `cap` items would take more than `isize::MAX`
/// bytes; the bound on `cap` leaves that out.
#[verifier::external_body]
pub(crate) fn sample_queue_with_capacity(cap: usize) -> (q: Queue<(u64, i128)>)
    requires
        cap <= MAX_CAPACITY,
    ensures
        sample_queue_items(q) == Seq::<(u64, i128)>::empty(),
        sample_queue_capacity(q) == Some(cap),
{
    Queue::with_capacity(cap)
}

/// `Queue::queue`: appends `item` and returns the new length, unless the
/// queue is limited and already holds as many items as its capacity; then
/// the queue is left as it was and the result is `Err`.
#[verifier::external_body]
pub(crate) fn sample_queue_push(q: &mut Queue<(u64, i128)>, item: (u64, i128)) -> (r: Result<
    usize,
    (),
>)
    ensures
        sample_queue_capacity(*final(q)) == sample_queue_capacity(*old(q)),
        match sample_queue_capacity(*old(q)) {
            Some(cap) if sample_queue_items(*old(q)).len() >= cap => {
                &&& r is Err
                &&& sample_queue_items(*final(q)) == sample_queue_items(*old(q))
            },
            _ => {
                &&& r == Ok::<usize, ()>((sample_queue_items(*old(q)).len() + 1) as usize)
                &&& sample_queue_items(*final(q)) == sample_queue_items(*old(q)).push(item)
            },
        },
{
    q.queue(item)
}

/// `Queue::force_queue`: appends `item`, first removing the oldest item when
/// the queue is at capacity, and returns the new length. The call panics on
/// a queue of capacity zero and on one that holds more than its capacity;
/// both are left out.
#[verifier::external_body]
pub(crate) fn sample_queue_force(q: &mut Queue<(u64, i128)>, item: (u64, i128)) -> (n: usize)
    requires
        match sample_queue_capacity(*old(q)) {
            Some(cap) => cap > 0 && sample_queue_items(*old(q)).len() <= cap,
            None => true,
        },
    ensures
        sample_queue_capacity(*final(q)) == sample_queue_capacity(*old(q)),
        n == sample_queue_items(*final(q)).len(),
        match sample_queue_capacity(*old(q)) {
            Some(cap) if sample_queue_items(*old(q)).len() >= cap => sample_queue_items(
                *final(q),
            ) == sample_queue_items(*old(q)).drop_first().push(item),
            _ => sample_queue_items(*final(q)) == sample_queue_items(*old(q)).push(item),
        },
{
    q.force_queue(item)
}

/// `Queue::vec`: the items of the queue, oldest first.
#[verifier::external_body]
pub(crate) fn sample_queue_vec(q: &Queue<(u64, i128)>) -> (v: &Vec<(u64, i128)>)
    ensures
        v@ == sample_queue_items(*q),
{
    q.vec()
}

/// `Queue::with_capacity`: an empty queue limited to `cap` items. The call
/// panics where the buffer for `cap` items would take more than `isize::MAX`
/// bytes; the bound on `cap` leaves that out.
#[verifier::external_body]
pub(crate) fn counter_queue_with_capacity(cap: usize) -> (q: Queue<u128>)
    requires
        cap <= MAX_COUNTER_CAPACITY,
    ensures
        counter_queue_items(q) == Seq::<u128>::empty(),
        counter_queue_capacity(q) == Some(cap),
{
    Queue::with_capacity(cap)
}

/// `Queue::force_queue`: appends `item`, first removing the oldest item when
/// the queue is at capacity, and returns the new length. The call panics on
/// a queue of capacity zero and on one that holds more than its capacity;
/// both are left out.
#[verifier::external_body]
pub(crate) fn counter_queue_force(q: &mut Queue<u128>, item: u128) -> (n: usize)
    requires
        match counter_queue_capacity(*old(q)) {
            Some(cap) => cap > 0 && counter_queue_items(*old(q)).len() <= cap,
            None => true,
        },
    ensures
        counter_queue_capacity(*final(q)) == counter_queue_capacity(*old(q)),
        n == counter_queue_items(*final(q)).len(),
        match counter_queue_capacity(*old(q)) {
            Some(cap) if counter_queue_items(*old(q)).len() >= cap => counter_queue_items(
                *final(q),
            ) == counter_queue_items(*old(q)).drop_first().push(item),
            _ => counter_queue_items(*final(q)) == counter_queue_items(*old(q)).push(item),
        },
{
    q.force_queue(item)
}

/// `Queue::vec`: the items of the queue, oldest first.
#[verifier::external_body]
pub(crate) fn counter_queue_vec(q: &Queue<u128>) -> (v: &Vec<u128>)
    ensures
        v@ == counter_queue_items(*q),
{
    q.vec()
}

} // verus!
