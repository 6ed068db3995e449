//! The persisted record of one download: its URL and its chunks with their
//! completion flags, from which an interrupted download resumes.
use vstd::prelude::*;
use crate::planner::{Chunk, calculate_chunks, is_plan};

verus! {

/// The resume record of one download.
pub struct DownloadState {
    pub url: String,
    pub chunks: Vec<Chunk>,
}

/// Indices of the chunks that are not completed, in increasing order.
pub open spec fn pending_indices(chunks: Seq<Chunk>) -> Seq<usize>
    decreases chunks.len(),
{
    if chunks.len() == 0 {
        Seq::empty()
    } else {
        let rest = pending_indices(chunks.drop_last());
        if chunks.last().completed {
            rest
        } else {
            rest.push((chunks.len() - 1) as usize)
        }
    }
}

/// Every chunk is completed.
pub open spec fn all_completed(chunks: Seq<Chunk>) -> bool {
    forall|i: int| 0 <= i < chunks.len() ==> (#[trigger] chunks[i]).completed
}

/// The path of the sidecar file that holds the resume record of `output`.
pub open spec fn sidecar_path(output: Seq<char>) -> Seq<char> {
    output + seq!['.', 's', 't', 'a', 't', 'e']
}

/// Returns `output` followed by `.state`.
pub fn state_path(output: &str) -> (r: String)
    ensures
        r@ == sidecar_path(output@),
{
    let mut r = String::from_str(output);
    r.append(".state");
    proof {
        reveal_strlit(".state");
    }
    r
}

impl DownloadState {
    /// A fresh record for `url`: the plan of `total_size` bytes over
    /// `num_threads` workers, nothing completed.
    pub fn new(url: String, total_size: u64, num_threads: u64) -> (r: DownloadState)
        requires
            num_threads >= 1,
        ensures
            r.url@ == url@,
            is_plan(r.chunks@, total_size as nat, num_threads as nat),
    {
        DownloadState { url, chunks: calculate_chunks(total_size, num_threads) }
    }

    /// Resume policy: a loaded record for the same URL is kept as it is, with its
    /// layout and its flags; anything else is replaced by a fresh plan.
    pub fn resume_or_plan(
        loaded: Option<DownloadState>,
        url: String,
        total_size: u64,
        num_threads: u64,
    ) -> (r: DownloadState)
        requires
            num_threads >= 1,
        ensures
            r.url@ == url@,
            match loaded {
                Some(s) if s.url@ == url@ => r.chunks@ == s.chunks@,
                _ => is_plan(r.chunks@, total_size as nat, num_threads as nat),
            },
    {
        match loaded {
            Some(s) => {
                if s.url == url {
                    s
                } else {
                    DownloadState::new(url, total_size, num_threads)
                }
            },
            None => DownloadState::new(url, total_size, num_threads),
        }
    }

    /// The indices of the chunks that still have to be fetched, in order.
    pub fn pending_chunks(&self) -> (r: Vec<usize>)
        ensures
            r@ == pending_indices(self.chunks@),
    {
        let mut r: Vec<usize> = Vec::new();
        let mut i: usize = 0;
        while i < self.chunks.len()
            invariant
                i <= self.chunks@.len(),
                r@ == pending_indices(self.chunks@.subrange(0, i as int)),
            decreases self.chunks@.len() - i,
        {
            let ghost prefix = self.chunks@.subrange(0, i as int + 1);
            assert(prefix.drop_last() == self.chunks@.subrange(0, i as int));
            if !self.chunks[i].completed {
                r.push(i);
            }
            i = i + 1;
        }
        assert(self.chunks@.subrange(0, self.chunks@.len() as int) == self.chunks@);
        r
    }

    /// Marks chunk `index` as fetched; nothing else changes.
    pub fn mark_completed(&mut self, index: usize)
        requires
            index < old(self).chunks@.len(),
        ensures
            final(self).url == old(self).url,
            final(self).chunks@ == old(self).chunks@.update(
                index as int,
                (Chunk { completed: true, ..old(self).chunks@[index as int] }),
            ),
    {
        let c = Chunk {
            start: self.chunks[index].start,
            end: self.chunks[index].end,
            completed: true,
        };
        self.chunks.set(index, c);
    }

    /// Whether every chunk has been fetched, so that the sidecar can go.
    pub fn is_complete(&self) -> (r: bool)
        ensures
            r == all_completed(self.chunks@),
    {
        let mut i: usize = 0;
        while i < self.chunks.len()
            invariant
                i <= self.chunks@.len(),
                forall|j: int| 0 <= j < i ==> (#[trigger] self.chunks@[j]).completed,
            decreases self.chunks@.len() - i,
        {
            if !self.chunks[i].completed {
                return false;
            }
            i = i + 1;
        }
        true
    }
}

/// When every chunk is completed nothing is pending.
pub proof fn lemma_nothing_pending(chunks: Seq<Chunk>)
    requires
        all_completed(chunks),
    ensures
        pending_indices(chunks) == Seq::<usize>::empty(),
    decreases chunks.len(),
{
    if chunks.len() > 0 {
        assert(chunks.last() == chunks[chunks.len() - 1]);
        lemma_nothing_pending(chunks.drop_last());
    }
}

/// Resuming a record in which every chunk but chunk `j` is completed fetches
/// chunk `j` and nothing else, wherever `j` stands.
pub proof fn lemma_resume_fetches_only_missing(chunks: Seq<Chunk>, j: int)
    requires
        0 <= j < chunks.len(),
        !chunks[j].completed,
        forall|i: int| 0 <= i < chunks.len() && i != j ==> (#[trigger] chunks[i]).completed,
    ensures
        pending_indices(chunks) == seq![j as usize],
    decreases chunks.len(),
{
    assert(chunks.last() == chunks[chunks.len() - 1]);
    if j == chunks.len() - 1 {
        lemma_nothing_pending(chunks.drop_last());
        assert(Seq::<usize>::empty().push(j as usize) == seq![j as usize]);
    } else {
        lemma_resume_fetches_only_missing(chunks.drop_last(), j);
    }
}

} // verus!
