//! What a download does once all of its workers have returned.
use vstd::prelude::*;
use crate::error::DownloadError;
use crate::worker::{collect_failures, failures};

verus! {

/// The end of one run of the workers.
#[derive(Debug)]
pub enum Outcome {
    /// Every chunk arrived: the sidecar can be deleted.
    Finished,
    /// The server ignores ranges: start again as one stream from byte 0.
    RetrySingleStream,
    /// Some chunks failed; the sidecar stays for a later resume.
    Failed(Vec<(usize, DownloadError)>),
}

/// Some failure says that the server ignored the requested range.
pub open spec fn range_ignored_in(f: Seq<(usize, DownloadError)>) -> bool {
    exists|i: int| 0 <= i < f.len() && (#[trigger] f[i]).1 == DownloadError::RangeIgnored
}

/// Decides from every worker's result: all well is `Finished`; a server that
/// ignores ranges calls for one stream; otherwise every failure is reported.
pub fn conclude(results: &Vec<Result<(), DownloadError>>) -> (r: Outcome)
    ensures
        failures(results@).len() == 0 ==> r is Finished,
        failures(results@).len() > 0 && range_ignored_in(failures(results@)) ==> r is RetrySingleStream,
        failures(results@).len() > 0 && !range_ignored_in(failures(results@)) ==> (r matches Outcome::Failed(v) && v@ == failures(results@)),
{
    match collect_failures(results) {
        Ok(_) => Outcome::Finished,
        Err(v) => {
            let mut i: usize = 0;
            while i < v.len()
                invariant
                    v@ == failures(results@),
                    v@.len() > 0,
                    i <= v@.len(),
                    forall|k: int| 0 <= k < i ==> (#[trigger] v@[k]).1 != DownloadError::RangeIgnored,
                decreases v@.len() - i,
            {
                if v[i].1 == DownloadError::RangeIgnored {
                    assert(range_ignored_in(failures(results@)) && v@[i as int].1 == DownloadError::RangeIgnored);
                    return Outcome::RetrySingleStream;
                }
                i = i + 1;
            }
            Outcome::Failed(v)
        },
    }
}

} // verus!
