//! The ranked process list and its cursor.

use vstd::prelude::*;
use vstd::seq_lib::seq_to_set_is_finite;
use vstd::set_lib::{lemma_int_range, lemma_subset_equality, set_int_range};

verus! {

/// One process, as the host reports it.
#[derive(Debug, Clone, PartialEq, Eq)]
pub struct ProcessRecord {
    pub pid: i32,
    pub name: String,
    /// Processor share in hundredths of a percent.
    pub cpu_percent: u32,
    /// Bytes written to disk, in all.
    pub bytes_written: u64,
}

/// What the process list is ordered by.
#[derive(Debug, Clone, Copy, PartialEq, Eq, PartialOrd, Ord, Hash, Structural)]
pub enum SortBy {
    /// By processor share.
    CPU,
    /// By bytes written.
    MEMORY,
}

/// The number a record is ranked by under the given order.
pub open spec fn sort_key(record: ProcessRecord, by: SortBy) -> int {
    match by {
        SortBy::CPU => record.cpu_percent as int,
        SortBy::MEMORY => record.bytes_written as int,
    }
}

/// Whether `order` arranges `input` into `output`, ascending by key and with
/// records of equal key in the order they had in `input`: `output[i]` is
/// `input[order[i]]`, and from one place to a later one either the key
/// grows, or it stays and the place in `input` grows. No place of `input`
/// is then taken twice, so each is taken once.
pub open spec fn arranges(
    order: Seq<int>,
    input: Seq<ProcessRecord>,
    output: Seq<ProcessRecord>,
    by: SortBy,
) -> bool {
    &&& order.len() == input.len()
    &&& output.len() == input.len()
    &&& forall|i: int|
        0 <= i < order.len() ==> 0 <= #[trigger] order[i] < input.len() && output[i]
            == input[order[i]]
    &&& forall|i: int, j: int|
        0 <= i < j < order.len() ==> {
            ||| sort_key(#[trigger] output[i], by) < sort_key(#[trigger] output[j], by)
            ||| (sort_key(output[i], by) == sort_key(output[j], by) && order[i] < order[j])
        }
}

/// Whether `output` is `input` ranked by the given order: the same records,
/// ascending by key, ties in the order of `input`.
pub open spec fn ranked(input: Seq<ProcessRecord>, output: Seq<ProcessRecord>, by: SortBy) -> bool {
    exists|order: Seq<int>| arranges(order, input, output, by)
}

/// The number a record is ranked by under the given order.
pub fn rank_key(record: &ProcessRecord, by: SortBy) -> (key: u64)
    ensures
        key == sort_key(*record, by),
{
    match by {
        SortBy::CPU => record.cpu_percent as u64,
        SortBy::MEMORY => record.bytes_written,
    }
}

/// Ranks the processes of one reading: ascending by processor share or by
/// bytes written, records that tie staying in the order they came in.
pub fn set_process_section(records: Vec<ProcessRecord>, sort_by: SortBy) -> (process_list: Vec<
    ProcessRecord,
>)
    ensures
        ranked(records@, process_list@, sort_by),
{
    let mut list = records;
    let n: usize = list.len();
    // `order[k]` is the place in `records` of the record now at `list[k]`.
    let ghost mut order: Seq<int> = Seq::new(n as nat, |k: int| k);
    let mut i: usize = 0;
    while i < n
        invariant
            i <= n,
            list@.len() == n,
            order.len() == n,
            records@.len() == n,
            forall|k: int|
                0 <= k < n ==> 0 <= #[trigger] order[k] < n && list@[k] == records@[order[k]],
            forall|k: int| i <= k < n ==> #[trigger] order[k] == k,
            forall|k: int| 0 <= k < i ==> #[trigger] order[k] < i,
            forall|a: int, b: int|
                0 <= a < b < i ==> {
                    ||| sort_key(#[trigger] list@[a], sort_by) < sort_key(
                        #[trigger] list@[b],
                        sort_by,
                    )
                    ||| (sort_key(list@[a], sort_by) == sort_key(list@[b], sort_by) && order[a]
                        < order[b])
                },
        decreases n - i,
    {
        // The first `i` records are ranked; the next one goes behind the last
        // of them whose key is no larger than its own.
        let key: u64 = rank_key(&list[i], sort_by);
        let mut pos: usize = i;
        while pos > 0 && rank_key(&list[pos - 1], sort_by) > key
            invariant
                pos <= i < n,
                list@.len() == n,
                key == sort_key(list@[i as int], sort_by),
                forall|k: int| pos <= k < i ==> sort_key(#[trigger] list@[k], sort_by) > key,
            decreases pos,
        {
            pos -= 1;
        }
        let ghost before = list@;
        let ghost before_order = order;
        let record = list.remove(i);
        list.insert(pos, record);
        proof {
            order = order.remove(i as int).insert(pos as int, i as int);
            assert forall|k: int| 0 <= k < n implies 0 <= #[trigger] order[k] < n && list@[k]
                == records@[order[k]] by {
                if k < pos {
                    assert(list@[k] == before[k] && order[k] == before_order[k]);
                } else if k == pos {
                    assert(list@[k] == before[i as int] && order[k] == before_order[i as int]);
                } else if k <= i {
                    assert(list@[k] == before[k - 1] && order[k] == before_order[k - 1]);
                } else {
                    assert(list@[k] == before[k] && order[k] == before_order[k]);
                }
            }
            assert forall|k: int| i + 1 <= k < n implies #[trigger] order[k] == k by {
                assert(order[k] == before_order[k]);
            }
            assert forall|k: int| 0 <= k < i + 1 implies #[trigger] order[k] < i + 1 by {
                if k < pos {
                    assert(order[k] == before_order[k]);
                } else if k == pos {
                    assert(order[k] == i);
                } else {
                    assert(order[k] == before_order[k - 1]);
                }
            }
            assert forall|a: int, b: int| 0 <= a < b < i + 1 implies {
                ||| sort_key(#[trigger] list@[a], sort_by) < sort_key(#[trigger] list@[b], sort_by)
                ||| (sort_key(list@[a], sort_by) == sort_key(list@[b], sort_by) && order[a]
                    < order[b])
            } by {
                let a0 = if a < pos { a } else if a == pos { i as int } else { a - 1 };
                let b0 = if b < pos { b } else if b == pos { i as int } else { b - 1 };
                assert(list@[a] == before[a0] && order[a] == before_order[a0]);
                assert(list@[b] == before[b0] && order[b] == before_order[b0]);
                if b == pos {
                    assert(before_order[a0] < i);
                    if a < pos - 1 {
                        assert(sort_key(before[a], sort_by) <= sort_key(
                            before[pos - 1],
                            sort_by,
                        ));
                    }
                } else if a == pos {
                    assert(sort_key(before[b0], sort_by) > key);
                } else {
                    assert(a0 < b0 < i);
                }
            }
        }
        i += 1;
    }
    proof {
        assert(arranges(order, records@, list@, sort_by));
    }
    list
}

/// The process list of the last reading, the cursor into it, and the order
/// that the next reading will be ranked by.
#[derive(Debug)]
pub struct Process {
    pub process_list: Vec<ProcessRecord>,
    pub active_index: usize,
    pub sort_by: SortBy,
}

/// Where the cursor stands after a step towards the end of a list of `len`
/// records: one further while that is still a record of the list, else
/// where it was. A cursor on the last record stays there.
pub open spec fn next_index(index: usize, len: nat) -> usize {
    if index + 1 < len {
        (index + 1) as usize
    } else {
        index
    }
}

/// Where the cursor stands after a step towards the start: one back while
/// it is above one, else where it was. The step never leads to zero.
pub open spec fn previous_index(index: usize) -> usize {
    if index > 1 {
        (index - 1) as usize
    } else {
        index
    }
}

/// The process that a cursor at `index` selects in `list`, if it points into
/// the list.
pub open spec fn selected(list: Seq<ProcessRecord>, index: usize) -> Option<i32> {
    if index < list.len() {
        Some(list[index as int].pid)
    } else {
        None
    }
}

impl Process {
    /// An empty list with the cursor at its start, ranked by bytes written.
    pub fn new() -> (process: Process)
        ensures
            process.process_list@ == Seq::<ProcessRecord>::empty(),
            process.active_index == 0,
            process.sort_by == SortBy::MEMORY,
    {
        Process { process_list: Vec::new(), active_index: 0, sort_by: SortBy::MEMORY }
    }

    /// Moves the cursor one step towards the end of the list, but never
    /// past its last record.
    pub fn select_next(&mut self)
        ensures
            final(self).active_index == next_index(
                old(self).active_index,
                old(self).process_list@.len(),
            ),
            final(self).process_list == old(self).process_list,
            final(self).sort_by == old(self).sort_by,
    {
        let len: usize = self.process_list.len();
        if len > 0 && self.active_index < len - 1 {
            self.active_index += 1;
        }
    }

    /// Moves the cursor one step towards the start of the list, but never
    /// onto its first record.
    pub fn select_previous(&mut self)
        ensures
            final(self).active_index == previous_index(old(self).active_index),
            final(self).process_list == old(self).process_list,
            final(self).sort_by == old(self).sort_by,
    {
        if self.active_index > 1 {
            self.active_index -= 1;
        }
    }

    /// The process under the cursor, or `None` where the cursor points
    /// beyond the list, as it may after the list was replaced.
    pub fn selected_pid(&self) -> (pid: Option<i32>)
        ensures
            pid == selected(self.process_list@, self.active_index),
    {
        if self.active_index < self.process_list.len() {
            Some(self.process_list[self.active_index].pid)
        } else {
            None
        }
    }
}

/// An order that arranges a list takes every place of it: the records that
/// come out are all the records that went in.
pub proof fn lemma_order_takes_every_place(
    order: Seq<int>,
    input: Seq<ProcessRecord>,
    output: Seq<ProcessRecord>,
    by: SortBy,
    place: int,
)
    requires
        arranges(order, input, output, by),
        0 <= place < input.len(),
    ensures
        exists|i: int| 0 <= i < order.len() && order[i] == place,
{
    let n = input.len() as int;
    assert forall|i: int, j: int| 0 <= i < n && 0 <= j < n && i != j implies order[i]
        != order[j] by {
        if i < j {
            assert(sort_key(output[i], by) < sort_key(output[j], by) || order[i] < order[j]);
        } else {
            assert(sort_key(output[j], by) < sort_key(output[i], by) || order[j] < order[i]);
        }
    }
    order.unique_seq_to_set();
    seq_to_set_is_finite(order);
    lemma_int_range(0, n);
    assert forall|x: int| order.to_set().contains(x) implies set_int_range(0, n).contains(x) by {
        let i = choose|i: int| 0 <= i < order.len() && order[i] == x;
        assert(0 <= order[i] < n);
    }
    lemma_subset_equality(order.to_set(), set_int_range(0, n));
    assert(set_int_range(0, n).contains(place));
    assert(order.contains(place));
}

/// Numbers below `n` that grow from each of `n` places to the next are the
/// places themselves.
proof fn lemma_growing_is_identity(places: Seq<int>, i: int)
    requires
        0 <= i < places.len(),
        forall|k: int| 0 <= k < places.len() ==> 0 <= #[trigger] places[k] < places.len(),
        forall|k: int, l: int| 0 <= k < l < places.len() ==> places[k] < places[l],
    ensures
        places[i] == i,
{
    lemma_growing_from_below(places, i);
    lemma_growing_from_above(places, i);
}

proof fn lemma_growing_from_below(places: Seq<int>, i: int)
    requires
        0 <= i < places.len(),
        forall|k: int| 0 <= k < places.len() ==> 0 <= #[trigger] places[k] < places.len(),
        forall|k: int, l: int| 0 <= k < l < places.len() ==> places[k] < places[l],
    ensures
        places[i] >= i,
    decreases i,
{
    if i > 0 {
        lemma_growing_from_below(places, i - 1);
    }
}

proof fn lemma_growing_from_above(places: Seq<int>, i: int)
    requires
        0 <= i < places.len(),
        forall|k: int| 0 <= k < places.len() ==> 0 <= #[trigger] places[k] < places.len(),
        forall|k: int, l: int| 0 <= k < l < places.len() ==> places[k] < places[l],
    ensures
        places[i] <= i,
    decreases places.len() - i,
{
    if i + 1 < places.len() {
        lemma_growing_from_above(places, i + 1);
    }
}

/// A list has one ranking under an order: two lists that both rank the same
/// input are equal.
pub proof fn lemma_ranked_unique(
    input: Seq<ProcessRecord>,
    first: Seq<ProcessRecord>,
    second: Seq<ProcessRecord>,
    by: SortBy,
)
    requires
        ranked(input, first, by),
        ranked(input, second, by),
    ensures
        first == second,
{
    let n = input.len() as int;
    let p = choose|order: Seq<int>| arranges(order, input, first, by);
    let q = choose|order: Seq<int>| arranges(order, input, second, by);
    // where the second ranking has the record that the first has at `i`
    let places = Seq::new(n as nat, |i: int| choose|j: int| 0 <= j < n && q[j] == p[i]);
    assert forall|i: int| 0 <= i < n implies 0 <= #[trigger] places[i] < n && q[places[i]]
        == p[i] by {
        assert(0 <= p[i] < n);
        lemma_order_takes_every_place(q, input, second, by, p[i]);
    }
    assert forall|k: int, l: int| 0 <= k < l < n implies places[k] < places[l] by {
        let j = places[k];
        let m = places[l];
        assert(q[j] == p[k] && q[m] == p[l]);
        assert(first[k] == input[p[k]] && first[l] == input[p[l]]);
        assert(second[j] == input[q[j]] && second[m] == input[q[m]]);
        assert(sort_key(first[k], by) < sort_key(first[l], by) || (sort_key(first[k], by)
            == sort_key(first[l], by) && p[k] < p[l]));
        if m < j {
            assert(sort_key(second[m], by) < sort_key(second[j], by) || (sort_key(second[m], by)
                == sort_key(second[j], by) && q[m] < q[j]));
        }
    }
    assert forall|i: int| 0 <= i < n implies first[i] == second[i] by {
        lemma_growing_is_identity(places, i);
        assert(q[places[i]] == p[i]);
        assert(first[i] == input[p[i]]);
        assert(second[i] == input[q[i]]);
    }
    assert(first =~= second);
}

/// A step keeps a cursor that points into the list inside it. Towards the
/// start the cursor stays on the first and on the second record and moves
/// by one from any other; towards the end it stays on the last record and
/// beyond, and moves by one from any other.
pub proof fn lemma_cursor_steps(index: usize, len: nat)
    requires
        len <= usize::MAX,
    ensures
        previous_index(0) == 0,
        previous_index(1) == 1,
        index > 1 ==> previous_index(index) == index - 1,
        index + 1 >= len ==> next_index(index, len) == index,
        index + 1 < len ==> next_index(index, len) == index + 1,
        index < len ==> next_index(index, len) < len && previous_index(index) < len,
{
}

} // verus!
