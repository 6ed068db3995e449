//! The settings that a user may configure, and how they combine with what a
//! single run asks for.
use vstd::prelude::*;

verus! {

/// Defaults for the downloader and the daemon; every one is optional.
#[derive(Debug)]
pub struct Settings {
    pub threads: Option<u8>,
    pub rate_limit: Option<u32>,
    pub default_dir: Option<String>,
    pub concurrent_files: Option<usize>,
    pub daemon_addr: Option<String>,
    pub daemon_secret: Option<String>,
}

impl Default for Settings {
    fn default() -> (r: Settings)
        ensures
            r.threads is None,
            r.rate_limit is None,
            r.default_dir is None,
            r.concurrent_files is None,
            r.daemon_addr is None,
            r.daemon_secret is None,
    {
        Settings {
            threads: None,
            rate_limit: None,
            default_dir: None,
            concurrent_files: None,
            daemon_addr: None,
            daemon_secret: None,
        }
    }
}

/// Worker count when neither the run nor the settings give one.
pub const DEFAULT_THREADS: u64 = 4;

/// The address of the daemon when the settings give none.
pub open spec fn default_daemon_addr() -> Seq<char> {
    seq!['1', '2', '7', '.', '0', '.', '0', '.', '1', ':', '9', '0', '9', '0']
}

impl Settings {
    /// The worker count of a run: the one it asks for, else the configured one,
    /// else four; a count of zero counts as one.
    pub fn effective_threads(&self, requested: Option<u8>) -> (r: u64)
        ensures
            r >= 1,
            r == ({
                let chosen: int = match requested {
                    Some(n) => n as int,
                    None => match self.threads {
                        Some(n) => n as int,
                        None => DEFAULT_THREADS as int,
                    },
                };
                if chosen == 0 {
                    1
                } else {
                    chosen
                }
            }),
    {
        let chosen: u64 = match requested {
            Some(n) => n as u64,
            None => match self.threads {
                Some(n) => n as u64,
                None => DEFAULT_THREADS,
            },
        };
        if chosen == 0 {
            1
        } else {
            chosen
        }
    }

    /// The configured rate limit in bytes per second; a zero limit means none.
    pub fn effective_rate_limit(&self) -> (r: Option<u32>)
        ensures
            r == match self.rate_limit {
                Some(n) if n > 0 => Some(n),
                _ => None::<u32>,
            },
    {
        match self.rate_limit {
            Some(n) => if n > 0 {
                Some(n)
            } else {
                None
            },
            None => None,
        }
    }

    /// Where the daemon listens: the configured address, else `127.0.0.1:9090`.
    pub fn daemon_address(&self) -> (r: String)
        ensures
            r@ == match self.daemon_addr {
                Some(a) => a@,
                None => default_daemon_addr(),
            },
    {
        match &self.daemon_addr {
            Some(a) => a.clone(),
            None => {
                let r = String::from_str("127.0.0.1:9090");
                proof {
                    reveal_strlit("127.0.0.1:9090");
                }
                r
            },
        }
    }
}

} // verus!
