//! The decisions of a chunked, resumable download: what the size probe concluded,
//! whether to fetch by ranges or as one stream, where each received segment goes,
//! and what is reported once every chunk has finished.
use vstd::prelude::*;
use vstd::string::*;
use crate::plan::{plan, planned, ranges_view, ChunkRange};
use crate::throughput::{rate_string, speed_text, throughput_string, throughput_text};

verus! {

/// What to do when the target file is already there.
#[derive(Clone, Copy, Debug, PartialEq, Eq, Structural)]
pub enum ExistingFileMode {
    /// Keep its bytes and fetch only what follows them.
    Resume,
    /// Do not start at all.
    RefuseIfExists,
}

/// Settings of one downloader.
pub struct DownloadEngine {
    pub chunk_size: u64,
    pub mode: ExistingFileMode,
}

/// The status and the `Content-Length` of an answer to a size probe.
#[derive(Clone, Copy, Debug, PartialEq, Eq, Structural)]
pub struct ProbeReply {
    pub status: u16,
    pub content_length: Option<u64>,
}

/// What the size probe does after its HEAD request.
#[derive(Clone, Copy, Debug, PartialEq, Eq, Structural)]
pub enum ProbeStep {
    /// The size is known.
    Known(u64),
    /// Ask again with a GET request.
    QueryGet,
}

/// How the download proceeds once the size of the resource has been probed.
#[derive(Debug)]
pub enum Decision {
    /// The size is unknown: stream the whole body into a fresh file.
    Fallback,
    /// Fetch `chunks` concurrently, keeping the first `existing_bytes` of the file.
    Ranged { existing_bytes: u64, chunks: Vec<ChunkRange> },
}

/// The outcome of a download once every chunk worker has finished.
#[derive(Clone, Copy, Debug, PartialEq, Eq, Structural)]
pub struct DownloadReport {
    pub chunks_completed: usize,
    pub chunks_failed: usize,
}

/// The status codes of a successful HEAD request.
pub open spec fn is_success(status: u16) -> bool {
    200 <= status <= 299
}

/// The size that a HEAD answer gives, if any: a successful answer with a length.
pub open spec fn head_size(head: Option<ProbeReply>) -> Option<u64> {
    match head {
        Some(reply) => if is_success(reply.status) {
            reply.content_length
        } else {
            None
        },
        None => None,
    }
}

/// The size that a GET answer gives: its length, or `0` when there is none.
pub open spec fn get_size(get: Option<ProbeReply>) -> u64 {
    match get {
        Some(reply) => match reply.content_length {
            Some(n) => n,
            None => 0,
        },
        None => 0,
    }
}

/// The statuses that a chunk request accepts: `200 OK` and `206 Partial Content`.
pub open spec fn chunk_status_ok(status: u16) -> bool {
    status == 200 || status == 206
}

/// The number of `true` entries of `s`.
pub open spec fn count_true(s: Seq<bool>) -> nat
    decreases s.len(),
{
    if s.len() == 0 {
        0
    } else {
        count_true(s.drop_last()) + if s.last() { 1nat } else { 0nat }
    }
}

impl DownloadEngine {
    /// Ranges have at least one byte.
    pub open spec fn wf(&self) -> bool {
        self.chunk_size > 0
    }

    /// A downloader that fetches ranges of `chunk_size` bytes and resumes partial files.
    pub fn new(chunk_size: u64) -> (r: Self)
        requires
            chunk_size > 0,
        ensures
            r.wf(),
            r.chunk_size == chunk_size,
            r.mode == ExistingFileMode::Resume,
    {
        DownloadEngine { chunk_size, mode: ExistingFileMode::Resume }
    }

    /// A downloader with the given treatment of an existing target file.
    pub fn with_mode(chunk_size: u64, mode: ExistingFileMode) -> (r: Self)
        requires
            chunk_size > 0,
        ensures
            r.wf(),
            r.chunk_size == chunk_size,
            r.mode == mode,
    {
        DownloadEngine { chunk_size, mode }
    }

    /// Whether a download may begin, given whether the target file exists.
    pub fn may_start(&self, target_exists: bool) -> (r: bool)
        ensures
            r == !(target_exists && self.mode == ExistingFileMode::RefuseIfExists),
    {
        !(target_exists && self.mode == ExistingFileMode::RefuseIfExists)
    }

    /// The step after the HEAD request (`None` when it could not be sent): a
    /// successful answer with a length settles the size, any other outcome asks
    /// again with GET.
    pub fn probe_after_head(head: Option<ProbeReply>) -> (r: ProbeStep)
        ensures
            r == (match head_size(head) {
                Some(n) => ProbeStep::Known(n),
                None => ProbeStep::QueryGet,
            }),
    {
        match head {
            Some(reply) => {
                if 200 <= reply.status && reply.status <= 299 {
                    match reply.content_length {
                        Some(n) => ProbeStep::Known(n),
                        None => ProbeStep::QueryGet,
                    }
                } else {
                    ProbeStep::QueryGet
                }
            },
            None => ProbeStep::QueryGet,
        }
    }

    /// The size after the GET request (`None` when it could not be sent): its
    /// length, or `0`, which stands for an unknown size.
    pub fn probe_after_get(get: Option<ProbeReply>) -> (r: u64)
        ensures
            r == get_size(get),
    {
        match get {
            Some(reply) => match reply.content_length {
                Some(n) => n,
                None => 0,
            },
            None => 0,
        }
    }

    /// The number of bytes already present at the target: its length when the
    /// file exists, else `0`.
    pub fn get_existing_file_size(found: Option<u64>) -> (r: u64)
        ensures
            r == (match found {
                Some(n) => n,
                None => 0,
            }),
    {
        match found {
            Some(n) => n,
            None => 0,
        }
    }

    /// How to proceed once the resource is known to hold `total_size` bytes
    /// (`0` when unknown) and the target holds `existing` bytes, if it exists.
    pub fn after_probe(&self, total_size: u64, existing: Option<u64>) -> (r: Decision)
        requires
            self.wf(),
        ensures
            total_size == 0 ==> r is Fallback,
            total_size != 0 ==> (match r {
                Decision::Ranged { existing_bytes, chunks } => {
                    &&& existing_bytes == (match existing {
                        Some(n) => n,
                        None => 0,
                    })
                    &&& ranges_view(chunks@) == planned(
                        total_size as nat,
                        existing_bytes as nat,
                        self.chunk_size as nat,
                    )
                },
                Decision::Fallback => false,
            }),
    {
        if total_size == 0 {
            Decision::Fallback
        } else {
            let existing_bytes = Self::get_existing_file_size(existing);
            let chunks = plan(total_size, existing_bytes, self.chunk_size);
            Decision::Ranged { existing_bytes, chunks }
        }
    }

    /// The ranges that remain to be fetched for a resource of `total_size` bytes
    /// when `existing_bytes` are already present.
    pub fn plan(&self, total_size: u64, existing_bytes: u64) -> (r: Vec<ChunkRange>)
        requires
            self.wf(),
        ensures
            ranges_view(r@) == planned(total_size as nat, existing_bytes as nat, self.chunk_size as nat),
    {
        plan(total_size, existing_bytes, self.chunk_size)
    }

    /// The text of a throughput of `speed` bytes per second.
    pub fn format_speed(speed: u64) -> (r: String)
        ensures
            r@ == speed_text(speed as nat, 1),
    {
        rate_string(speed as u128, 1)
    }

    /// The progress message for `position` bytes received in `elapsed_millis`
    /// milliseconds since the download began.
    pub fn speed_message(position: u64, elapsed_millis: u64) -> (r: String)
        ensures
            r@ == seq!['S', 'p', 'e', 'e', 'd', ':', ' '] + throughput_text(
                position as nat,
                elapsed_millis as nat,
            ),
    {
        proof { reveal_strlit("Speed: "); }
        let mut s = String::from_str("Speed: ");
        let t = throughput_string(position, elapsed_millis);
        s.append(t.as_str());
        assert(s@ =~= seq!['S', 'p', 'e', 'e', 'd', ':', ' '] + throughput_text(
            position as nat,
            elapsed_millis as nat,
        ));
        s
    }

    /// The report once every worker has finished, given whether each one
    /// succeeded. Failed chunks are counted, and the download as a whole still
    /// ends normally.
    pub fn finish(outcomes: &Vec<bool>) -> (r: DownloadReport)
        ensures
            r.chunks_completed == count_true(outcomes@),
            r.chunks_completed + r.chunks_failed == outcomes@.len(),
    {
        let mut done: usize = 0;
        let mut i: usize = 0;
        while i < outcomes.len()
            invariant
                i <= outcomes@.len(),
                done == count_true(outcomes@.subrange(0, i as int)),
                done <= i,
            decreases outcomes@.len() - i,
        {
            proof {
                assert(outcomes@.subrange(0, i + 1).drop_last() =~= outcomes@.subrange(0, i as int));
            }
            if outcomes[i] {
                done = done + 1;
            }
            i = i + 1;
        }
        assert(outcomes@.subrange(0, i as int) =~= outcomes@);
        DownloadReport { chunks_completed: done, chunks_failed: i - done }
    }
}

impl DownloadReport {
    /// Whether every chunk arrived whole.
    pub fn is_complete(&self) -> (r: bool)
        ensures
            r == (self.chunks_failed == 0),
    {
        self.chunks_failed == 0
    }
}

/// The state of one chunk worker: its range and the bytes it has written so far.
pub struct ChunkWorker {
    pub range: ChunkRange,
    pub written: u64,
}

impl ChunkWorker {
    /// A worker for `range` that has written nothing yet.
    pub fn new(range: ChunkRange) -> (r: Self)
        ensures
            r.range == range,
            r.written == 0,
    {
        ChunkWorker { range, written: 0 }
    }

    /// Whether the answer to a chunk request may be written.
    pub fn accepts_status(status: u16) -> (r: bool)
        ensures
            r == chunk_status_ok(status),
    {
        status == 200 || status == 206
    }

    /// The file offset at which the next segment of `len` bytes goes, which is the
    /// start of the range plus what this worker has written; the segment is then
    /// counted as written. `None`, with nothing changed, when that segment would
    /// end past the largest file offset.
    pub fn place_segment(&mut self, len: u64) -> (r: Option<u64>)
        ensures
            final(self).range == old(self).range,
            old(self).range.start + old(self).written + len <= u64::MAX ==> {
                &&& r == Some((old(self).range.start + old(self).written) as u64)
                &&& final(self).written == old(self).written + len
            },
            old(self).range.start + old(self).written + len > u64::MAX ==> {
                &&& r is None
                &&& final(self).written == old(self).written
            },
    {
        if self.written > u64::MAX - self.range.start || len > u64::MAX - self.range.start
            - self.written {
            None
        } else {
            let offset = self.range.start + self.written;
            self.written = self.written + len;
            Some(offset)
        }
    }
}

} // verus!
