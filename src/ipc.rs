//! The daemon's control protocol: its messages, and the decision taken for each
//! request. Reading and writing the messages is left to the caller; what the
//! daemon must do next comes back as an [`Action`].
use vstd::prelude::*;
use crate::decimal::decimal;
use crate::jobs::{JobStatus, JobTable, add_effect, added_message};

verus! {

/// A command to the daemon.
#[derive(Debug)]
pub enum Command {
    Add { url: String },
    Status,
    Shutdown,
}

/// The daemon's answer.
#[derive(Debug)]
pub enum Response {
    Success(String),
    StatusList(Vec<JobStatus>),
    Failure(String),
}

/// A command with the shared secret that authorises it.
#[derive(Debug)]
pub struct Request {
    pub secret: Option<String>,
    pub command: Command,
}

/// What the daemon does once the response is sent.
#[derive(Debug)]
pub enum Action {
    /// Nothing more.
    Continue,
    /// Start downloading `url` in the background as job `id`.
    StartJob { id: usize, url: String },
    /// Stop the process.
    Exit,
}

/// The request carries the daemon's secret, or the daemon has none.
pub open spec fn authorized(given: Option<String>, expected: Option<String>) -> bool {
    match expected {
        None => true,
        Some(s) => given matches Some(g) && g@ == s@,
    }
}

/// The last path segment of `url`: what follows its last `/`.
pub open spec fn last_segment(url: Seq<char>) -> Seq<char>
    decreases url.len(),
{
    if url.len() == 0 || url.last() == '/' {
        Seq::empty()
    } else {
        last_segment(url.drop_last()).push(url.last())
    }
}

/// The name under which a download of `url` is saved.
pub open spec fn file_name_of(url: Seq<char>) -> Seq<char> {
    if last_segment(url).len() == 0 {
        seq!['d', 'o', 'w', 'n', 'l', 'o', 'a', 'd', '.', 'b', 'i', 'n']
    } else {
        last_segment(url)
    }
}

/// The refusal of a request without the daemon's secret.
pub open spec fn unauthorized_text() -> Seq<char> {
    seq!['U', 'n', 'a', 'u', 't', 'h', 'o', 'r', 'i', 'z', 'e', 'd']
}

/// The refusal of an `Add` once every id has been handed out.
pub open spec fn table_full_text() -> Seq<char> {
    seq!['J', 'o', 'b', ' ', 't', 'a', 'b', 'l', 'e', ' ', 'f', 'u', 'l', 'l']
}

/// The acknowledgement of `Shutdown`.
pub open spec fn shutdown_text() -> Seq<char> {
    seq!['S', 'h', 'u', 't', 't', 'i', 'n', 'g', ' ', 'd', 'o', 'w', 'n', '.', '.', '.']
}

/// The start of the answer to a request that is not valid JSON.
pub open spec fn invalid_json_prefix() -> Seq<char> {
    seq!['I', 'n', 'v', 'a', 'l', 'i', 'd', ' ', 'J', 'S', 'O', 'N', ':', ' ']
}

/// The file name for a download of `url`: its last path segment, or
/// `download.bin` when that is empty.
pub fn get_filename_from_url(url: &str) -> (r: String)
    ensures
        r@ == file_name_of(url@),
{
    let n = url.unicode_len();
    let mut i: usize = n;
    assert(url@.subrange(0, n as int) =~= url@);
    assert(url@.subrange(n as int, n as int) =~= Seq::<char>::empty());
    while i > 0 && url.get_char(i - 1) != '/'
        invariant
            n == url@.len(),
            i <= n,
            last_segment(url@) == last_segment(url@.subrange(0, i as int)) + url@.subrange(
                i as int,
                n as int,
            ),
        decreases i,
    {
        let ghost pre = url@.subrange(0, i as int);
        assert(pre.drop_last() =~= url@.subrange(0, i - 1));
        assert(url@.subrange(i - 1, n as int) =~= seq![pre.last()] + url@.subrange(
            i as int,
            n as int,
        ));
        assert(last_segment(pre) == last_segment(pre.drop_last()).push(pre.last()));
        assert(last_segment(pre.drop_last()).push(pre.last()) + url@.subrange(i as int, n as int)
            =~= last_segment(pre.drop_last()) + url@.subrange(i - 1, n as int));
        i = i - 1;
    }
    assert(last_segment(url@.subrange(0, i as int)) =~= Seq::<char>::empty());
    assert(last_segment(url@) =~= url@.subrange(i as int, n as int));
    if i == n {
        let r = String::from_str("download.bin");
        proof {
            reveal_strlit("download.bin");
        }
        r
    } else {
        String::from_str(url.substring_char(i, n))
    }
}

/// Whether `given` matches the daemon's secret `expected`; a daemon without a
/// secret accepts every request.
pub fn check_secret(given: &Option<String>, expected: &Option<String>) -> (r: bool)
    ensures
        r == authorized(*given, *expected),
{
    match expected {
        None => true,
        Some(s) => match given {
            Some(g) => *g == *s,
            None => false,
        },
    }
}

/// The answer to a request that is not a well-formed JSON document:
/// `Err("Invalid JSON: <detail>")`.
pub fn invalid_json_response(detail: &str) -> (r: Response)
    ensures
        r matches Response::Failure(m) && m@ == invalid_json_prefix() + detail@,
{
    let mut m = String::from_str("Invalid JSON: ");
    m.append(detail);
    proof {
        reveal_strlit("Invalid JSON: ");
    }
    Response::Failure(m)
}

/// Executes one request against the job table. An unauthorised request is
/// refused before anything changes. `Add` registers a job and asks for it to be
/// started without waiting for it; `Status` lists every job; `Shutdown`
/// acknowledges and asks the daemon to stop.
pub fn handle_request(table: &mut JobTable, request: Request, secret: &Option<String>) -> (r: (
    Response,
    Action,
))
    requires
        old(table).wf(),
    ensures
        final(table).wf(),
        !authorized(request.secret, *secret) ==> {
            &&& *final(table) == *old(table)
            &&& r.0 matches Response::Failure(m) && m@ == unauthorized_text()
            &&& r.1 is Continue
        },
        authorized(request.secret, *secret) ==> match request.command {
            Command::Add { url } => if old(table).next_id == usize::MAX {
                &&& *final(table) == *old(table)
                &&& r.0 matches Response::Failure(m) && m@ == table_full_text()
                &&& r.1 is Continue
            } else {
                let id = old(table).next_id;
                &&& add_effect(*old(table), *final(table), file_name_of(url@), Some(id))
                &&& r.0 matches Response::Success(m) && m@ == seq![
                    'A',
                    'd',
                    'd',
                    'e',
                    'd',
                    ' ',
                    'j',
                    'o',
                    'b',
                    ' ',
                    '#',
                ] + decimal(id as nat)
                &&& r.1 matches Action::StartJob { id: job, url: u } && job == id && u@ == url@
            },
            Command::Status => {
                &&& *final(table) == *old(table)
                &&& r.0 matches Response::StatusList(v) && v@ == old(table).jobs@.map_values(
                    |j: crate::jobs::Job| j.status,
                )
                &&& r.1 is Continue
            },
            Command::Shutdown => {
                &&& *final(table) == *old(table)
                &&& r.0 matches Response::Success(m) && m@ == shutdown_text()
                &&& r.1 is Exit
            },
        },
{
    if !check_secret(&request.secret, secret) {
        let m = String::from_str("Unauthorized");
        proof {
            reveal_strlit("Unauthorized");
        }
        return (Response::Failure(m), Action::Continue);
    }
    match request.command {
        Command::Add { url } => {
            let filename = get_filename_from_url(url.as_str());
            match table.add(filename) {
                Some(id) => (Response::Success(added_message(id)), Action::StartJob { id, url }),
                None => {
                    let m = String::from_str("Job table full");
                    proof {
                        reveal_strlit("Job table full");
                    }
                    (Response::Failure(m), Action::Continue)
                },
            }
        },
        Command::Status => (Response::StatusList(table.statuses()), Action::Continue),
        Command::Shutdown => {
            let m = String::from_str("Shutting down...");
            proof {
                reveal_strlit("Shutting down...");
            }
            (Response::Success(m), Action::Exit)
        },
    }
}

/// Where a message ends in the bytes read so far. Messages are terminated by
/// a newline, which JSON text never holds unescaped.
#[derive(Debug, PartialEq, Eq, Structural)]
pub enum Frame {
    /// The message is the first `n` bytes; a newline follows them.
    Complete(usize),
    /// No newline yet, and there is room for more.
    Incomplete,
    /// No newline within the first `max` bytes: the message is too long.
    TooLong,
}

/// Finds the end of the first message of `buf`, whose body may hold at most
/// `max` bytes.
pub fn find_frame(buf: &[u8], max: usize) -> (r: Frame)
    ensures
        match r {
            Frame::Complete(n) => n <= max && n < buf@.len() && buf@[n as int] == 10u8 && forall|
                k: int,
            | 0 <= k < n ==> #[trigger] buf@[k] != 10u8,
            Frame::Incomplete => buf@.len() <= max && forall|k: int|
                0 <= k < buf@.len() ==> #[trigger] buf@[k] != 10u8,
            Frame::TooLong => forall|k: int| 0 <= k <= max && k < buf@.len() ==> #[trigger] buf@[k] != 10u8,
        },
        buf@.len() > max ==> !(r is Incomplete),
{
    let mut i: usize = 0;
    while i < buf.len()
        invariant
            i <= buf@.len(),
            i <= max,
            forall|k: int| 0 <= k < i ==> #[trigger] buf@[k] != 10u8,
        decreases buf@.len() - i,
    {
        if buf[i] == 10u8 {
            return Frame::Complete(i);
        }
        if i == max {
            return Frame::TooLong;
        }
        i = i + 1;
    }
    if buf.len() > max {
        Frame::TooLong
    } else {
        Frame::Incomplete
    }
}

/// The bytes that carry `json` as one message: the text and a newline.
pub fn frame_message(json: &str) -> (r: String)
    ensures
        r@ == json@.push('\n'),
{
    let mut r = String::from_str(json);
    r.append("\n");
    proof {
        reveal_strlit("\n");
    }
    assert(r@ =~= json@.push('\n'));
    r
}

} // verus!
