//! The daemon's registry of download jobs. Ids come from a counter that only
//! grows, so none is ever handed out twice.
use vstd::prelude::*;
use crate::decimal::push_decimal;

verus! {

/// What `Status` reports of one job.
#[derive(Debug)]
pub struct JobStatus {
    pub id: usize,
    pub filename: String,
    pub progress_percent: u64,
    pub state: String,
}

impl Clone for JobStatus {
    fn clone(&self) -> (r: JobStatus)
        ensures
            r == *self,
    {
        JobStatus {
            id: self.id,
            filename: self.filename.clone(),
            progress_percent: self.progress_percent,
            state: self.state.clone(),
        }
    }
}

/// A job with the byte counts from which its percentage comes.
#[derive(Debug)]
pub struct Job {
    pub status: JobStatus,
    pub downloaded: u64,
    pub total: u64,
}

/// The state text of a job that has not finished.
pub open spec fn starting_text() -> Seq<char> {
    seq!['S', 't', 'a', 'r', 't', 'i', 'n', 'g']
}

/// The state text of a job that finished well.
pub open spec fn done_text() -> Seq<char> {
    seq!['D', 'o', 'n', 'e']
}

/// The start of the state text of a job that failed; the reason follows.
pub open spec fn failed_prefix() -> Seq<char> {
    seq!['F', 'a', 'i', 'l', 'e', 'd', ':', ' ']
}

/// A job's state is `Starting`, `Done`, or `Failed: ` with a reason.
pub open spec fn valid_state(s: Seq<char>) -> bool {
    s == starting_text() || s == done_text() || (s.len() >= failed_prefix().len() && s.subrange(
        0,
        failed_prefix().len() as int,
    ) == failed_prefix())
}

/// The percentage of `total` that `downloaded` is, at most 100; 0 while the
/// total is unknown.
pub open spec fn percent(downloaded: nat, total: nat) -> nat {
    if total == 0 {
        0
    } else if downloaded * 100 / total > 100 {
        100
    } else {
        downloaded * 100 / total
    }
}

/// The registry: jobs in the order they were added.
pub struct JobTable {
    pub jobs: Vec<Job>,
    pub next_id: usize,
}

/// The ids of the jobs that `t` holds.
pub open spec fn job_ids(t: JobTable) -> Set<usize> {
    t.jobs@.map_values(|j: Job| j.status.id).to_set()
}

/// What `add` did: on `Some(id)` the job was appended with the next id and the
/// counter moved past it; on `None` the ids ran out and nothing changed.
pub open spec fn add_effect(
    t0: JobTable,
    t1: JobTable,
    filename: Seq<char>,
    r: Option<usize>,
) -> bool {
    match r {
        Some(id) => {
            &&& id == t0.next_id
            &&& t1.next_id == id + 1
            &&& t1.jobs@.len() == t0.jobs@.len() + 1
            &&& t1.jobs@.drop_last() == t0.jobs@
            &&& t1.jobs@.last().status.id == id
            &&& t1.jobs@.last().status.filename@ == filename
            &&& t1.jobs@.last().status.progress_percent == 0
            &&& t1.jobs@.last().status.state@ == starting_text()
            &&& t1.jobs@.last().downloaded == 0
            &&& t1.jobs@.last().total == 0
        },
        None => t0.next_id == usize::MAX && t1 == t0,
    }
}

/// The job that `id` names was changed as `f` says and nothing else was.
pub open spec fn only_job_changed(
    t0: JobTable,
    t1: JobTable,
    id: usize,
    f: spec_fn(Job, Job) -> bool,
) -> bool {
    &&& t1.next_id == t0.next_id
    &&& t1.jobs@.len() == t0.jobs@.len()
    &&& forall|i: int|
        0 <= i < t0.jobs@.len() ==> if (#[trigger] t0.jobs@[i]).status.id == id {
            t1.jobs@[i].status.id == id && t1.jobs@[i].status.filename == t0.jobs@[i].status.filename
                && f(t0.jobs@[i], t1.jobs@[i])
        } else {
            t1.jobs@[i] == t0.jobs@[i]
        }
}

impl JobTable {
    /// Ids ascend in the order of the jobs and stay below the counter; every
    /// state is valid and every percentage at most 100.
    pub open spec fn wf(&self) -> bool {
        &&& self.next_id >= 1
        &&& forall|i: int, j: int|
            0 <= i < j < self.jobs@.len() ==> (#[trigger] self.jobs@[i]).status.id
                < (#[trigger] self.jobs@[j]).status.id
        &&& forall|i: int|
            0 <= i < self.jobs@.len() ==> {
                &&& (#[trigger] self.jobs@[i]).status.id < self.next_id
                &&& valid_state(self.jobs@[i].status.state@)
                &&& self.jobs@[i].status.progress_percent <= 100
            }
    }

    /// An empty table whose first id is 1.
    pub fn new() -> (r: JobTable)
        ensures
            r.wf(),
            r.jobs@.len() == 0,
            r.next_id == 1,
    {
        JobTable { jobs: Vec::new(), next_id: 1 }
    }

    /// Registers a job for `filename` in state `Starting` at 0%, under a fresh id.
    pub fn add(&mut self, filename: String) -> (r: Option<usize>)
        requires
            old(self).wf(),
        ensures
            final(self).wf(),
            add_effect(*old(self), *final(self), filename@, r),
            r is None <==> old(self).next_id == usize::MAX,
    {
        if self.next_id == usize::MAX {
            return None;
        }
        let id = self.next_id;
        let state = String::from_str("Starting");
        proof {
            reveal_strlit("Starting");
        }
        let status = JobStatus { id, filename, progress_percent: 0, state };
        self.jobs.push(Job { status, downloaded: 0, total: 0 });
        self.next_id = id + 1;
        assert(final(self).jobs@.drop_last() =~= old(self).jobs@);
        assert(final(self).jobs@.last().status.state@ == starting_text());
        assert(valid_state(final(self).jobs@.last().status.state@));
        assert forall|i: int, j: int|
            0 <= i < j < final(self).jobs@.len() implies (#[trigger] final(self).jobs@[i]).status.id
            < (#[trigger] final(self).jobs@[j]).status.id by {
            if j < old(self).jobs@.len() {
                assert(old(self).jobs@[i] == final(self).jobs@[i]);
                assert(old(self).jobs@[j] == final(self).jobs@[j]);
            } else {
                assert(old(self).jobs@[i] == final(self).jobs@[i]);
            }
        }
        assert forall|i: int| 0 <= i < final(self).jobs@.len() implies {
            &&& (#[trigger] final(self).jobs@[i]).status.id < final(self).next_id
            &&& valid_state(final(self).jobs@[i].status.state@)
            &&& final(self).jobs@[i].status.progress_percent <= 100
        } by {
            if i < old(self).jobs@.len() {
                assert(old(self).jobs@[i] == final(self).jobs@[i]);
            }
        }
        Some(id)
    }

    /// What `Status` answers: every job's status, in the table's order.
    pub fn statuses(&self) -> (r: Vec<JobStatus>)
        ensures
            r@ == self.jobs@.map_values(|j: Job| j.status),
    {
        let mut r: Vec<JobStatus> = Vec::new();
        let mut i: usize = 0;
        while i < self.jobs.len()
            invariant
                i <= self.jobs@.len(),
                r@ == self.jobs@.subrange(0, i as int).map_values(|j: Job| j.status),
            decreases self.jobs@.len() - i,
        {
            r.push(self.jobs[i].status.clone());
            i = i + 1;
            assert(r@ =~= self.jobs@.subrange(0, i as int).map_values(|j: Job| j.status));
        }
        assert(self.jobs@.subrange(0, self.jobs@.len() as int) == self.jobs@);
        r
    }

    fn index_of(&self, id: usize) -> (r: Option<usize>)
        ensures
            r matches Some(i) ==> i < self.jobs@.len() && self.jobs@[i as int].status.id == id,
            r is None ==> forall|i: int|
                0 <= i < self.jobs@.len() ==> (#[trigger] self.jobs@[i]).status.id != id,
    {
        let mut i: usize = 0;
        while i < self.jobs.len()
            invariant
                i <= self.jobs@.len(),
                forall|k: int| 0 <= k < i ==> (#[trigger] self.jobs@[k]).status.id != id,
            decreases self.jobs@.len() - i,
        {
            if self.jobs[i].status.id == id {
                return Some(i);
            }
            i = i + 1;
        }
        None
    }

    /// Records that the job `id` received `delta` more bytes (the count saturates)
    /// and sets its percentage from it. Returns whether the job exists.
    pub fn record_bytes(&mut self, id: usize, delta: u64) -> (found: bool)
        requires
            old(self).wf(),
        ensures
            final(self).wf(),
            found == exists|i: int|
                0 <= i < old(self).jobs@.len() && (#[trigger] old(self).jobs@[i]).status.id == id,
            only_job_changed(
                *old(self),
                *final(self),
                id,
                |a: Job, b: Job|
                    b.total == a.total && b.downloaded == (if a.downloaded + delta > u64::MAX {
                        u64::MAX as int
                    } else {
                        a.downloaded + delta
                    }) && b.status.state == a.status.state && b.status.progress_percent
                        == percent(b.downloaded as nat, b.total as nat),
            ),
    {
        match self.index_of(id) {
            None => false,
            Some(i) => {
                let old_job = &self.jobs[i];
                let downloaded = old_job.downloaded.saturating_add(delta);
                let total = old_job.total;
                let p = progress_percent(downloaded, total);
                let status = JobStatus {
                    id,
                    filename: old_job.status.filename.clone(),
                    progress_percent: p,
                    state: old_job.status.state.clone(),
                };
                self.jobs.set(i, Job { status, downloaded, total });
                proof {
                    self.lemma_unique_index(*old(self), i as int, id);
                }
                true
            },
        }
    }

    /// Records the size of the job `id` once it is known. Returns whether the
    /// job exists.
    pub fn set_total(&mut self, id: usize, total: u64) -> (found: bool)
        requires
            old(self).wf(),
        ensures
            final(self).wf(),
            found == exists|i: int|
                0 <= i < old(self).jobs@.len() && (#[trigger] old(self).jobs@[i]).status.id == id,
            only_job_changed(
                *old(self),
                *final(self),
                id,
                |a: Job, b: Job|
                    b.total == total && b.downloaded == a.downloaded && b.status.state
                        == a.status.state && b.status.progress_percent == percent(
                        b.downloaded as nat,
                        b.total as nat,
                    ),
            ),
    {
        match self.index_of(id) {
            None => false,
            Some(i) => {
                let old_job = &self.jobs[i];
                let downloaded = old_job.downloaded;
                let p = progress_percent(downloaded, total);
                let status = JobStatus {
                    id,
                    filename: old_job.status.filename.clone(),
                    progress_percent: p,
                    state: old_job.status.state.clone(),
                };
                self.jobs.set(i, Job { status, downloaded, total });
                proof {
                    self.lemma_unique_index(*old(self), i as int, id);
                }
                true
            },
        }
    }

    /// Ends the job `id`: `Done` at 100% on success, else `Failed: ` and the
    /// reason, its percentage kept. Returns whether the job exists.
    pub fn finish_job(&mut self, id: usize, outcome: Result<(), String>) -> (found: bool)
        requires
            old(self).wf(),
        ensures
            final(self).wf(),
            found == exists|i: int|
                0 <= i < old(self).jobs@.len() && (#[trigger] old(self).jobs@[i]).status.id == id,
            only_job_changed(
                *old(self),
                *final(self),
                id,
                |a: Job, b: Job|
                    b.total == a.total && b.downloaded == a.downloaded && match outcome {
                        Ok(_) => b.status.state@ == done_text() && b.status.progress_percent
                            == 100,
                        Err(m) => b.status.state@ == failed_prefix() + m@
                            && b.status.progress_percent == a.status.progress_percent,
                    },
            ),
    {
        match self.index_of(id) {
            None => false,
            Some(i) => {
                let old_job = &self.jobs[i];
                let (state, p) = match outcome {
                    Ok(_) => {
                        let s = String::from_str("Done");
                        proof {
                            reveal_strlit("Done");
                            assert(s@ =~= done_text());
                        }
                        (s, 100u64)
                    },
                    Err(m) => {
                        let mut s = String::from_str("Failed: ");
                        s.append(m.as_str());
                        proof {
                            reveal_strlit("Failed: ");
                            assert(s@ =~= failed_prefix() + m@);
                            assert(s@.subrange(0, failed_prefix().len() as int) =~= failed_prefix());
                        }
                        (s, old_job.status.progress_percent)
                    },
                };
                let status = JobStatus {
                    id,
                    filename: old_job.status.filename.clone(),
                    progress_percent: p,
                    state,
                };
                let job = Job { status, downloaded: old_job.downloaded, total: old_job.total };
                assert(valid_state(job.status.state@));
                self.jobs.set(i, job);
                proof {
                    self.lemma_unique_index(*old(self), i as int, id);
                }
                true
            },
        }
    }

    proof fn lemma_unique_index(&self, t0: JobTable, i: int, id: usize)
        requires
            t0.wf(),
            0 <= i < t0.jobs@.len(),
            t0.jobs@[i].status.id == id,
        ensures
            forall|k: int| 0 <= k < t0.jobs@.len() && k != i ==> (#[trigger] t0.jobs@[k]).status.id
                != id,
    {
        assert forall|k: int| 0 <= k < t0.jobs@.len() && k != i implies (#[trigger] t0.jobs@[k]).status.id != id by {
            if k < i {
                assert(t0.jobs@[k].status.id < t0.jobs@[i].status.id);
            } else {
                assert(t0.jobs@[i].status.id < t0.jobs@[k].status.id);
            }
        }
    }
}

/// `downloaded` as a percentage of `total`.
pub fn progress_percent(downloaded: u64, total: u64) -> (r: u64)
    ensures
        r == percent(downloaded as nat, total as nat),
{
    if total == 0 {
        return 0;
    }
    let scaled: u128 = downloaded as u128 * 100;
    let p: u128 = scaled / total as u128;
    if p > 100 {
        100
    } else {
        p as u64
    }
}

/// The text `Added job #<id>` that acknowledges an `Add`.
pub fn added_message(id: usize) -> (r: String)
    ensures
        r@ == seq!['A', 'd', 'd', 'e', 'd', ' ', 'j', 'o', 'b', ' ', '#'] + crate::decimal::decimal(
            id as nat,
        ),
{
    let mut r = String::from_str("Added job #");
    proof {
        reveal_strlit("Added job #");
    }
    push_decimal(&mut r, id as u64);
    r
}

/// Each `add` hands out an id above every earlier one, whatever other
/// operations came between (none of them moves the counter back).
pub proof fn lemma_ids_increase(
    t0: JobTable,
    t1: JobTable,
    t2: JobTable,
    t3: JobTable,
    f1: Seq<char>,
    f2: Seq<char>,
    a: usize,
    b: usize,
)
    requires
        add_effect(t0, t1, f1, Some(a)),
        t2.next_id >= t1.next_id,
        add_effect(t2, t3, f2, Some(b)),
    ensures
        a < b,
{
}

/// After an `add` the table holds exactly the jobs it held before and the new
/// one, whose id none of them had: `Status` reports every job added so far.
pub proof fn lemma_add_reports_new_job(t0: JobTable, t1: JobTable, f: Seq<char>, id: usize)
    requires
        t0.wf(),
        add_effect(t0, t1, f, Some(id)),
    ensures
        job_ids(t1) == job_ids(t0).insert(id),
        !job_ids(t0).contains(id),
{
    let s0 = t0.jobs@.map_values(|j: Job| j.status.id);
    let s1 = t1.jobs@.map_values(|j: Job| j.status.id);
    assert(s1 =~= s0.push(id)) by {
        assert(t1.jobs@ == t0.jobs@.push(t1.jobs@.last()));
    }
    s0.lemma_push_to_set_commute(id);
    if s0.contains(id) {
        let k = choose|k: int| 0 <= k < s0.len() && s0[k] == id;
        assert(t0.jobs@[k].status.id < t0.next_id);
    }
}

} // verus!
