//! A model of the output file under positional writes, and why workers that
//! write the chunks of one plan, in whatever order, leave each chunk's bytes at
//! its own offsets.
use vstd::prelude::*;
use crate::planner::{effective_workers, lemma_plan_partitions, planned_end, planned_start};

verus! {

/// `file` after writing `data` at offset `off`; its length does not change.
pub open spec fn write_at(file: Seq<u8>, off: int, data: Seq<u8>) -> Seq<u8> {
    Seq::new(
        file.len(),
        |b: int|
            if off <= b < off + data.len() {
                data[b - off]
            } else {
                file[b]
            },
    )
}

/// `file` after the writes `(offset, bytes)`, first to last.
pub open spec fn apply_writes(file: Seq<u8>, writes: Seq<(int, Seq<u8>)>) -> Seq<u8>
    decreases writes.len(),
{
    if writes.len() == 0 {
        file
    } else {
        write_at(apply_writes(file, writes.drop_last()), writes.last().0, writes.last().1)
    }
}

/// No two writes touch a common byte.
pub open spec fn disjoint_writes(writes: Seq<(int, Seq<u8>)>) -> bool {
    forall|i: int, j: int|
        0 <= i < writes.len() && 0 <= j < writes.len() && i != j ==> (#[trigger] writes[i]).0
            + writes[i].1.len() <= (#[trigger] writes[j]).0 || writes[j].0 + writes[j].1.len()
            <= writes[i].0
}

/// Two writes that follow each other are one write of the joined bytes: a
/// worker that writes each buffer right after the previous one writes its body.
pub proof fn lemma_consecutive_writes(file: Seq<u8>, off: int, a: Seq<u8>, b: Seq<u8>)
    ensures
        write_at(write_at(file, off, a), off + a.len(), b) == write_at(file, off, a + b),
{
    assert(write_at(write_at(file, off, a), off + a.len(), b) =~= write_at(file, off, a + b));
}

/// After disjoint writes, a byte that one of them covers holds that write's
/// byte, whatever the order of the writes.
pub proof fn lemma_disjoint_writes(file: Seq<u8>, writes: Seq<(int, Seq<u8>)>, k: int, b: int)
    requires
        disjoint_writes(writes),
        0 <= k < writes.len(),
        writes[k].0 <= b < writes[k].0 + writes[k].1.len(),
        0 <= b < file.len(),
    ensures
        apply_writes(file, writes).len() == file.len(),
        apply_writes(file, writes)[b] == writes[k].1[b - writes[k].0],
    decreases writes.len(),
{
    lemma_writes_keep_length(file, writes);
    let n = writes.len() - 1;
    lemma_writes_keep_length(file, writes.drop_last());
    if k < n {
        assert(writes.drop_last()[k] == writes[k]);
        assert forall|i: int, j: int|
            0 <= i < writes.drop_last().len() && 0 <= j < writes.drop_last().len() && i != j
                implies (#[trigger] writes.drop_last()[i]).0 + writes.drop_last()[i].1.len()
            <= (#[trigger] writes.drop_last()[j]).0 || writes.drop_last()[j].0
            + writes.drop_last()[j].1.len() <= writes.drop_last()[i].0 by {
            assert(writes.drop_last()[i] == writes[i] && writes.drop_last()[j] == writes[j]);
        }
        lemma_disjoint_writes(file, writes.drop_last(), k, b);
        assert(!(writes[n].0 <= b < writes[n].0 + writes[n].1.len())) by {
            assert(writes[k].0 + writes[k].1.len() <= writes[n].0 || writes[n].0
                + writes[n].1.len() <= writes[k].0);
        }
    }
}

proof fn lemma_writes_keep_length(file: Seq<u8>, writes: Seq<(int, Seq<u8>)>)
    ensures
        apply_writes(file, writes).len() == file.len(),
    decreases writes.len(),
{
    if writes.len() > 0 {
        lemma_writes_keep_length(file, writes.drop_last());
    }
}

/// Workers that each write the whole body of one chunk of a plan at the
/// chunk's start, in any order (`order` lists each chunk index once), leave in
/// every byte of chunk `i` the byte of `bodies[i]` at the same distance from
/// the chunk's start: the file is the chunks' bodies laid end to end.
pub proof fn lemma_chunks_land_in_place(
    file: Seq<u8>,
    total_size: nat,
    num_threads: nat,
    bodies: Seq<Seq<u8>>,
    order: Seq<int>,
    i: int,
    b: int,
)
    requires
        total_size > 0,
        num_threads >= 1,
        file.len() == total_size,
        bodies.len() == effective_workers(total_size, num_threads),
        forall|c: int|
            0 <= c < bodies.len() ==> (#[trigger] bodies[c]).len() == planned_end(
                total_size,
                num_threads,
                c,
            ) - planned_start(total_size, num_threads, c) + 1,
        forall|p: int| 0 <= p < order.len() ==> 0 <= #[trigger] order[p] < bodies.len(),
        forall|p: int, q: int|
            0 <= p < order.len() && 0 <= q < order.len() && p != q ==> #[trigger] order[p]
                != #[trigger] order[q],
        0 <= i < bodies.len(),
        exists|p: int| 0 <= p < order.len() && order[p] == i,
        planned_start(total_size, num_threads, i) <= b <= planned_end(total_size, num_threads, i),
    ensures
        apply_writes(
            file,
            order.map_values(
                |c: int| (planned_start(total_size, num_threads, c), bodies[c]),
            ),
        )[b] == bodies[i][b - planned_start(total_size, num_threads, i)],
{
    lemma_plan_partitions(total_size, num_threads);
    let writes = order.map_values(|c: int| (planned_start(total_size, num_threads, c), bodies[c]));
    assert forall|p: int, q: int|
        0 <= p < writes.len() && 0 <= q < writes.len() && p != q implies (#[trigger] writes[p]).0
        + writes[p].1.len() <= (#[trigger] writes[q]).0 || writes[q].0 + writes[q].1.len()
        <= writes[p].0 by {
        let cp = order[p];
        let cq = order[q];
        assert(cp != cq);
        if cp < cq {
            assert(planned_end(total_size, num_threads, cp) < planned_start(
                total_size,
                num_threads,
                cq,
            ));
        } else {
            assert(planned_end(total_size, num_threads, cq) < planned_start(
                total_size,
                num_threads,
                cp,
            ));
        }
    }
    let p = choose|p: int| 0 <= p < order.len() && order[p] == i;
    assert(planned_end(total_size, num_threads, effective_workers(total_size, num_threads) - 1)
        == total_size - 1);
    assert(planned_start(total_size, num_threads, 0) == 0);
    assert(0 <= b < total_size) by {
        assert(planned_start(total_size, num_threads, i) <= planned_end(total_size, num_threads, i));
        if i > 0 {
            assert(planned_end(total_size, num_threads, 0) < planned_start(total_size, num_threads, i));
        }
        if i < effective_workers(total_size, num_threads) - 1 {
            assert(planned_end(total_size, num_threads, i) < planned_start(
                total_size,
                num_threads,
                effective_workers(total_size, num_threads) - 1,
            ));
            assert(planned_start(total_size, num_threads, effective_workers(total_size, num_threads) - 1) <= planned_end(total_size, num_threads, effective_workers(total_size, num_threads) - 1));
        }
    }
    lemma_disjoint_writes(file, writes, p, b);
}

/// Resuming with every chunk but `j` already on disk: writing chunk `j` alone
/// leaves the same bytes as a fresh download that writes every chunk, in any
/// order, whichever chunk `j` is.
pub proof fn lemma_resume_matches_fresh(
    partial: Seq<u8>,
    fresh_start: Seq<u8>,
    total_size: nat,
    num_threads: nat,
    bodies: Seq<Seq<u8>>,
    order: Seq<int>,
    j: int,
    b: int,
)
    requires
        total_size > 0,
        num_threads >= 1,
        partial.len() == total_size,
        fresh_start.len() == total_size,
        bodies.len() == effective_workers(total_size, num_threads),
        forall|c: int|
            0 <= c < bodies.len() ==> (#[trigger] bodies[c]).len() == planned_end(
                total_size,
                num_threads,
                c,
            ) - planned_start(total_size, num_threads, c) + 1,
        order.len() == bodies.len(),
        forall|p: int| 0 <= p < order.len() ==> 0 <= #[trigger] order[p] < bodies.len(),
        forall|p: int, q: int|
            0 <= p < order.len() && 0 <= q < order.len() && p != q ==> #[trigger] order[p]
                != #[trigger] order[q],
        0 <= j < bodies.len(),
        forall|c: int, x: int|
            0 <= c < bodies.len() && c != j && planned_start(total_size, num_threads, c) <= x
                <= planned_end(total_size, num_threads, c) ==> #[trigger] partial[x]
                == #[trigger] bodies[c][x - planned_start(total_size, num_threads, c)],
        0 <= b < total_size,
    ensures
        write_at(partial, planned_start(total_size, num_threads, j), bodies[j])[b]
            == apply_writes(
            fresh_start,
            order.map_values(
                |c: int| (planned_start(total_size, num_threads, c), bodies[c]),
            ),
        )[b],
{
    lemma_plan_partitions(total_size, num_threads);
    assert(crate::planner::in_some_chunk(total_size, num_threads, b));
    let i = choose|i: int|
        0 <= i < effective_workers(total_size, num_threads) && #[trigger] planned_start(
            total_size,
            num_threads,
            i,
        ) <= b <= planned_end(total_size, num_threads, i);
    lemma_order_lists_all(order, bodies.len() as int, i);
    lemma_chunks_land_in_place(fresh_start, total_size, num_threads, bodies, order, i, b);
    if i != j {
        if i < j {
            assert(planned_end(total_size, num_threads, i) < planned_start(total_size, num_threads, j));
        } else {
            assert(planned_end(total_size, num_threads, j) < planned_start(total_size, num_threads, i));
        }
        assert(partial[b] == bodies[i][b - planned_start(total_size, num_threads, i)]);
    }
}

/// A list of `n` distinct indices below `n` names every index below `n`.
proof fn lemma_order_lists_all(order: Seq<int>, n: int, i: int)
    requires
        order.len() == n,
        forall|p: int| 0 <= p < order.len() ==> 0 <= #[trigger] order[p] < n,
        forall|p: int, q: int|
            0 <= p < order.len() && 0 <= q < order.len() && p != q ==> #[trigger] order[p]
                != #[trigger] order[q],
        0 <= i < n,
    ensures
        exists|p: int| 0 <= p < order.len() && order[p] == i,
{
    let s = order.to_set();
    order.unique_seq_to_set();
    let full = Set::new(|x: int| 0 <= x < n);
    assert(s.subset_of(full)) by {
        assert forall|x: int| s.contains(x) implies full.contains(x) by {
            let p = choose|p: int| 0 <= p < order.len() && order[p] == x;
        }
    }
    vstd::set_lib::lemma_int_range(0, n);
    assert(full =~= vstd::set_lib::set_int_range(0, n));
    if !s.contains(i) {
        vstd::set_lib::lemma_len_subset(s.insert(i), full);
    }
}

} // verus!
