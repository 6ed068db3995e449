//! How workers report progress: a capability set that each front end
//! implements, a terminal bar or the daemon's job table.
use vstd::prelude::*;

verus! {

/// Receives the progress of a download from any of its workers.
pub trait ProgressObserver: Send + Sync {
    /// `delta` more bytes have been written.
    fn inc(&self, delta: u64);

    /// The observed work is over.
    fn finish(&self);

    /// A short text for the user.
    fn message(&self, message: String);
}

} // verus!
