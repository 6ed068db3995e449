//! Splitting a resource of known size into contiguous byte ranges, one per worker.
use vstd::prelude::*;

verus! {

/// An inclusive byte range `[start, end]` of the remote resource, with the flag
/// that records whether it has been fetched in full.
pub struct Chunk {
    pub start: u64,
    pub end: u64,
    pub completed: bool,
}

impl Clone for Chunk {
    fn clone(&self) -> (r: Chunk)
        ensures
            r == *self,
    {
        Chunk { start: self.start, end: self.end, completed: self.completed }
    }
}

/// The number of chunks a plan has: one per worker, but never more chunks than
/// bytes, so that no chunk is empty.
pub open spec fn effective_workers(total_size: nat, num_threads: nat) -> nat {
    if total_size < num_threads {
        total_size
    } else {
        num_threads
    }
}

/// The length of every chunk but the last.
pub open spec fn chunk_base(total_size: nat, num_threads: nat) -> nat {
    total_size / effective_workers(total_size, num_threads)
}

/// First byte of chunk `i`.
pub open spec fn planned_start(total_size: nat, num_threads: nat, i: int) -> int {
    i * chunk_base(total_size, num_threads)
}

/// Last byte of chunk `i`: the last chunk takes the remainder of the division.
pub open spec fn planned_end(total_size: nat, num_threads: nat, i: int) -> int {
    if i == effective_workers(total_size, num_threads) - 1 {
        total_size - 1
    } else {
        (i + 1) * chunk_base(total_size, num_threads) - 1
    }
}

/// Byte `b` lies inside one of the planned chunks.
pub open spec fn in_some_chunk(total_size: nat, num_threads: nat, b: int) -> bool {
    exists|i: int|
        0 <= i < effective_workers(total_size, num_threads) && #[trigger] planned_start(
            total_size,
            num_threads,
            i,
        ) <= b <= planned_end(total_size, num_threads, i)
}

/// `chunks` is exactly the plan for `total_size` bytes over `num_threads` workers,
/// with no chunk completed.
pub open spec fn is_plan(chunks: Seq<Chunk>, total_size: nat, num_threads: nat) -> bool {
    &&& chunks.len() == effective_workers(total_size, num_threads)
    &&& forall|i: int|
        0 <= i < chunks.len() ==> {
            &&& (#[trigger] chunks[i]).start == planned_start(total_size, num_threads, i)
            &&& chunks[i].end == planned_end(total_size, num_threads, i)
            &&& !chunks[i].completed
        }
}

/// Partitions `total_size` bytes into `min(num_threads, total_size)` chunks.
/// Chunk `i` spans `[i * base, (i + 1) * base - 1]` with
/// `base = total_size / min(num_threads, total_size)`; the last chunk ends at
/// `total_size - 1`.
pub fn calculate_chunks(total_size: u64, num_threads: u64) -> (chunks: Vec<Chunk>)
    requires
        num_threads >= 1,
    ensures
        is_plan(chunks@, total_size as nat, num_threads as nat),
{
    let workers: u64 = if total_size < num_threads { total_size } else { num_threads };
    let mut chunks: Vec<Chunk> = Vec::new();
    if workers == 0 {
        return chunks;
    }
    let base: u64 = total_size / workers;
    proof {
        assert(base * workers <= total_size) by (nonlinear_arith)
            requires base == total_size / workers, workers > 0;
    }
    let mut i: u64 = 0;
    while i < workers
        invariant
            workers == effective_workers(total_size as nat, num_threads as nat),
            workers > 0,
            base == chunk_base(total_size as nat, num_threads as nat),
            base * workers <= total_size,
            i <= workers,
            chunks@.len() == i,
            forall|j: int|
                0 <= j < i ==> {
                    &&& (#[trigger] chunks@[j]).start == planned_start(
                        total_size as nat,
                        num_threads as nat,
                        j,
                    )
                    &&& chunks@[j].end == planned_end(total_size as nat, num_threads as nat, j)
                    &&& !chunks@[j].completed
                },
        decreases workers - i,
    {
        proof {
            assert(i * base + base <= total_size) by (nonlinear_arith)
                requires i < workers, base * workers <= total_size;
            assert(base >= 1) by (nonlinear_arith)
                requires base == total_size / workers, workers <= total_size, workers > 0;
        }
        let start: u64 = i * base;
        let end: u64 = if i == workers - 1 {
            total_size - 1
        } else {
            start + base - 1
        };
        proof {
            assert((i + 1) * base == i * base + base) by (nonlinear_arith);
        }
        chunks.push(Chunk { start, end, completed: false });
        i = i + 1;
    }
    chunks
}

/// For every size and worker count the plan partitions `[0, total_size - 1]`:
/// the chunks are nonempty and in order, each starts right after the previous
/// one ends, no two overlap, a byte lies in some chunk exactly when it is below
/// `total_size`, and there are `min(num_threads, total_size)` of them.
pub proof fn lemma_plan_partitions(total_size: nat, num_threads: nat)
    requires
        total_size > 0,
        num_threads >= 1,
    ensures
        ({
            let k = effective_workers(total_size, num_threads);
            &&& k == if num_threads < total_size { num_threads } else { total_size }
            &&& planned_start(total_size, num_threads, 0) == 0
            &&& planned_end(total_size, num_threads, k - 1) == total_size - 1
            &&& forall|i: int|
                0 <= i < k ==> #[trigger] planned_start(total_size, num_threads, i)
                    <= planned_end(total_size, num_threads, i)
            &&& forall|i: int|
                0 <= i < k - 1 ==> #[trigger] planned_start(total_size, num_threads, i + 1)
                    == planned_end(total_size, num_threads, i) + 1
            &&& forall|i: int, j: int|
                0 <= i < j < k ==> #[trigger] planned_end(total_size, num_threads, i)
                    < #[trigger] planned_start(total_size, num_threads, j)
            &&& forall|b: int|
                (0 <= b < total_size) <==> #[trigger] in_some_chunk(total_size, num_threads, b)
        }),
{
    let k = effective_workers(total_size, num_threads);
    let base: int = chunk_base(total_size, num_threads) as int;
    assert(base * k <= total_size && base >= 1) by (nonlinear_arith)
        requires base == (total_size / k) as int, 0 < k <= total_size;
    assert forall|i: int|
        0 <= i < k implies #[trigger] planned_start(total_size, num_threads, i) <= planned_end(
            total_size,
            num_threads,
            i,
        ) by {
        assert(i * base + base <= total_size) by (nonlinear_arith)
            requires 0 <= i < k, base * k <= total_size;
        assert((i + 1) * base == i * base + base) by (nonlinear_arith);
    }
    assert forall|i: int|
        0 <= i < k - 1 implies #[trigger] planned_start(total_size, num_threads, i + 1)
        == planned_end(total_size, num_threads, i) + 1 by {
        assert((i + 1) * base == i * base + base) by (nonlinear_arith);
    }
    assert forall|i: int, j: int|
        0 <= i < j < k implies #[trigger] planned_end(total_size, num_threads, i)
        < #[trigger] planned_start(total_size, num_threads, j) by {
        assert((i + 1) * base <= j * base) by (nonlinear_arith)
            requires i + 1 <= j, base >= 1;
    }
    assert forall|b: int|
        (0 <= b < total_size) <==> #[trigger] in_some_chunk(total_size, num_threads, b) by {
        if 0 <= b < total_size {
            let q = b / base;
            let i = if q < k - 1 { q } else { k - 1 };
            assert(q * base <= b && b < q * base + base && q >= 0) by (nonlinear_arith)
                requires q == b / base, base >= 1, b >= 0;
            assert(i * base <= q * base) by (nonlinear_arith)
                requires 0 <= i <= q, base >= 1;
            assert((i + 1) * base == i * base + base) by (nonlinear_arith);
            assert(planned_start(total_size, num_threads, i) <= b <= planned_end(
                total_size,
                num_threads,
                i,
            ));
        }
        if exists|i: int|
            0 <= i < k && #[trigger] planned_start(total_size, num_threads, i) <= b
                <= planned_end(total_size, num_threads, i) {
            let i = choose|i: int|
                0 <= i < k && #[trigger] planned_start(total_size, num_threads, i) <= b
                    <= planned_end(total_size, num_threads, i);
            assert(i * base >= 0) by (nonlinear_arith)
                requires i >= 0, base >= 1;
            assert(i * base + base <= total_size) by (nonlinear_arith)
                requires 0 <= i < k, base * k <= total_size;
            assert((i + 1) * base == i * base + base) by (nonlinear_arith);
        }
    }
}

} // verus!
