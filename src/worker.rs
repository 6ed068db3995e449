//! The decisions of a chunk worker and of the size probe: which range to ask
//! for, whether a response can be used, and where each received buffer goes.
use vstd::prelude::*;
use crate::decimal::{decimal, decimal_value, is_decimal, parse_decimal, push_decimal};
use crate::error::DownloadError;
use crate::planner::Chunk;

verus! {

/// The value of the `Range` header that asks for `[start, end]`.
pub open spec fn range_text(start: nat, end: nat) -> Seq<char> {
    seq!['b', 'y', 't', 'e', 's', '='] + decimal(start) + seq!['-'] + decimal(end)
}

/// `status` is a success status.
pub open spec fn is_success(status: u16) -> bool {
    200 <= status <= 299
}

/// The `Range` header value for `chunk`: `bytes=<start>-<end>`.
pub fn range_header(chunk: &Chunk) -> (r: String)
    ensures
        r@ == range_text(chunk.start as nat, chunk.end as nat),
{
    let mut r = String::from_str("bytes=");
    push_decimal(&mut r, chunk.start);
    r.append("-");
    push_decimal(&mut r, chunk.end);
    proof {
        reveal_strlit("bytes=");
        reveal_strlit("-");
    }
    assert(r@ =~= range_text(chunk.start as nat, chunk.end as nat));
    r
}

/// The size of the resource from the answer to its `HEAD` request: the status,
/// then the `Content-Length` header if there was one.
pub fn content_length(status: u16, header: Option<&str>) -> (r: Result<u64, DownloadError>)
    ensures
        !is_success(status) ==> r == Err::<u64, DownloadError>(DownloadError::HttpStatus(status)),
        is_success(status) ==> match header {
            None => r == Err::<u64, DownloadError>(DownloadError::MissingHeader),
            Some(h) => if is_decimal(h@) && decimal_value(h@) <= u64::MAX {
                r == Ok::<u64, DownloadError>(decimal_value(h@) as u64)
            } else {
                r == Err::<u64, DownloadError>(DownloadError::InvalidHeader)
            },
        },
{
    if status < 200 || status > 299 {
        return Err(DownloadError::HttpStatus(status));
    }
    match header {
        None => Err(DownloadError::MissingHeader),
        Some(h) => match parse_decimal(h) {
            Some(v) => Ok(v),
            None => Err(DownloadError::InvalidHeader),
        },
    }
}

/// Whether the answer to the ranged `GET` of a chunk that starts at `start` can
/// be written: a partial-content answer always can; another success only for a
/// chunk at byte 0, whose bytes then open the body; anything else is refused.
pub fn check_range_response(status: u16, start: u64) -> (r: Result<(), DownloadError>)
    ensures
        r == if !is_success(status) {
            Err(DownloadError::HttpStatus(status))
        } else if status == 206 || start == 0 {
            Ok(())
        } else {
            Err::<(), DownloadError>(DownloadError::RangeIgnored)
        },
{
    if status < 200 || status > 299 {
        Err(DownloadError::HttpStatus(status))
    } else if status == 206 || start == 0 {
        Ok(())
    } else {
        Err(DownloadError::RangeIgnored)
    }
}

/// Where the bytes of one chunk go: each buffer is written at the chunk's start
/// plus what was written before it, and never past the chunk's end.
pub struct ChunkCursor {
    pub start: u64,
    pub len: u64,
    pub written: u64,
}

impl ChunkCursor {
    /// Nothing written yet, and no more written than fits in the chunk.
    pub open spec fn wf(&self) -> bool {
        &&& self.written <= self.len
        &&& self.start + self.len <= u64::MAX
    }

    /// A cursor at the first byte of `chunk`.
    pub fn new(chunk: &Chunk) -> (r: ChunkCursor)
        requires
            chunk.start <= chunk.end < u64::MAX,
        ensures
            r.wf(),
            r.start == chunk.start,
            r.len == chunk.end - chunk.start + 1,
            r.written == 0,
    {
        ChunkCursor { start: chunk.start, len: chunk.end - chunk.start + 1, written: 0 }
    }

    /// Takes a received buffer of `received` bytes. Returns the absolute file
    /// offset at which to write it and how many of its leading bytes belong to
    /// the chunk (the rest lies past the chunk's end and is dropped).
    pub fn accept(&mut self, received: u64) -> (r: (u64, u64))
        requires
            old(self).wf(),
        ensures
            final(self).wf(),
            final(self).start == old(self).start,
            final(self).len == old(self).len,
            r.0 == old(self).start + old(self).written,
            r.1 == if received <= old(self).len - old(self).written {
                received
            } else {
                (old(self).len - old(self).written) as u64
            },
            final(self).written == old(self).written + r.1,
    {
        let room = self.len - self.written;
        let take = if received <= room { received } else { room };
        let offset = self.start + self.written;
        self.written = self.written + take;
        (offset, take)
    }

    /// The chunk is filled; if the body ended early, the error says how much of
    /// it came.
    pub fn finish(&self) -> (r: Result<(), DownloadError>)
        requires
            self.wf(),
        ensures
            r == if self.written == self.len {
                Ok(())
            } else {
                Err::<(), DownloadError>(
                    DownloadError::IncompleteBody { expected: self.len, received: self.written },
                )
            },
    {
        if self.written == self.len {
            Ok(())
        } else {
            Err(DownloadError::IncompleteBody { expected: self.len, received: self.written })
        }
    }
}

/// The failures among the workers' results, each with its index, in order.
pub open spec fn failures(results: Seq<Result<(), DownloadError>>) -> Seq<(usize, DownloadError)>
    decreases results.len(),
{
    if results.len() == 0 {
        Seq::empty()
    } else {
        let rest = failures(results.drop_last());
        match results.last() {
            Ok(_) => rest,
            Err(e) => rest.push(((results.len() - 1) as usize, e)),
        }
    }
}

/// Gathers every worker's failure rather than the first alone: `Ok` when all
/// succeeded, else every failure with the index of its worker.
pub fn collect_failures(results: &Vec<Result<(), DownloadError>>) -> (r: Result<
    (),
    Vec<(usize, DownloadError)>,
>)
    ensures
        match r {
            Ok(_) => failures(results@).len() == 0,
            Err(v) => v@ == failures(results@) && v@.len() > 0,
        },
{
    let mut v: Vec<(usize, DownloadError)> = Vec::new();
    let mut i: usize = 0;
    while i < results.len()
        invariant
            i <= results@.len(),
            v@ == failures(results@.subrange(0, i as int)),
        decreases results@.len() - i,
    {
        let ghost prefix = results@.subrange(0, i as int + 1);
        assert(prefix.drop_last() == results@.subrange(0, i as int));
        match &results[i] {
            Ok(_) => {},
            Err(e) => {
                v.push((i, *e));
            },
        }
        i = i + 1;
    }
    assert(results@.subrange(0, results@.len() as int) == results@);
    if v.len() == 0 {
        Ok(())
    } else {
        Err(v)
    }
}

} // verus!
