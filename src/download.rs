//! The download engine's decisions: the retry schedule over attempts, the
//! message of a terminal failure, the running byte count and throughput of
//! a transfer, and the body length that a response declares.

use vstd::prelude::*;
use vstd::string::{StringExecFns, StringSliceAdditionalSpecFns};
use crate::text::{decimal_of, push_decimal};

verus! {

/// How many attempts a download makes at most.
pub const MAX_ATTEMPTS: u32 = 3;

/// The backoff unit: the wait after attempt `k` is `k` times this.
pub const BACKOFF_STEP_MS: u64 = 300;

/// The size of one read from the response body.
pub const CHUNK_SIZE: usize = 65536;

/// The overall timeout of one request, in seconds.
pub const REQUEST_TIMEOUT_SECS: u64 = 60;

/// The browser identity sent with every request.
pub const USER_AGENT: &'static str = "Mozilla/5.0 (Windows NT 10.0; Win64; x64) AppleWebKit/537.36 (KHTML, like Gecko) Chrome/120 Safari/537.36";

/// The referer sent with every request.
pub const REFERER: &'static str = "http://localhost";

/// What one attempt came to.
#[derive(Clone, Copy, Debug, PartialEq, Eq, Structural)]
pub enum AttemptOutcome {
    /// No response came: the connection failed or timed out.
    Transport,
    /// A response came with a status outside the success range.
    Status { code: u16 },
    /// The whole body was written.
    Saved,
    /// Creating or writing the destination file failed.
    WriteFailed,
    /// Reading the body failed part way through.
    ReadFailed,
}

/// What to do after an attempt.
#[derive(Clone, Copy, Debug, PartialEq, Eq, Structural)]
pub enum RetryStep {
    /// Wait `delay_ms`, then make attempt number `next_attempt`.
    Retry { delay_ms: u64, next_attempt: u32 },
    /// The file is saved.
    Succeeded,
    /// Give up and report the error of this attempt.
    Failed,
}

/// A status in the success range.
pub open spec fn is_success_code(code: u16) -> bool {
    200 <= code <= 299
}

/// The network may be to blame: another attempt can help.
pub open spec fn is_retryable(o: AttemptOutcome) -> bool {
    o is Transport || o is Status
}

/// The step after attempt number `attempt` (counted from one) came to `o`.
pub open spec fn step_after(attempt: u32, o: AttemptOutcome) -> RetryStep {
    if o is Saved {
        RetryStep::Succeeded
    } else if is_retryable(o) && attempt < MAX_ATTEMPTS {
        RetryStep::Retry {
            delay_ms: (BACKOFF_STEP_MS * attempt) as u64,
            next_attempt: (attempt + 1) as u32,
        }
    } else {
        RetryStep::Failed
    }
}

/// Whether `code` is a success status.
pub fn is_success_status(code: u16) -> (r: bool)
    ensures
        r == is_success_code(code),
{
    200 <= code && code <= 299
}

/// Decides what follows attempt number `attempt` (counted from one): a saved
/// file ends the download, a local failure ends it at once, and a network
/// failure is retried after a wait that grows by `BACKOFF_STEP_MS` with each
/// attempt, until `MAX_ATTEMPTS` attempts are spent.
pub fn next_step(attempt: u32, o: AttemptOutcome) -> (r: RetryStep)
    requires
        1 <= attempt <= MAX_ATTEMPTS,
    ensures
        r == step_after(attempt, o),
{
    match o {
        AttemptOutcome::Saved => RetryStep::Succeeded,
        AttemptOutcome::Transport | AttemptOutcome::Status { .. } => {
            if attempt < MAX_ATTEMPTS {
                RetryStep::Retry {
                    delay_ms: BACKOFF_STEP_MS * (attempt as u64),
                    next_attempt: attempt + 1,
                }
            } else {
                RetryStep::Failed
            }
        },
        AttemptOutcome::WriteFailed | AttemptOutcome::ReadFailed => RetryStep::Failed,
    }
}

/// The message of a failure with status `code`.
pub open spec fn status_message(code: u16) -> Seq<char> {
    seq!['H', 'T', 'T', 'P', ' '] + decimal_of(code as nat)
}

/// The message that a failed download reports for its last attempt: the
/// status for a status failure, else `detail`, the error text as it came.
pub fn failure_message(o: AttemptOutcome, detail: String) -> (r: String)
    ensures
        r@ == (match o {
            AttemptOutcome::Status { code } => status_message(code),
            _ => detail@,
        }),
{
    match o {
        AttemptOutcome::Status { code } => {
            let mut m = String::from_str("HTTP ");
            proof {
                reveal_strlit("HTTP ");
            }
            push_decimal(&mut m, code as u64);
            m
        },
        _ => detail,
    }
}

/// Every network failure is retried with waits of one, then two backoff
/// units, and the third ends the download; so does a local failure at once,
/// and a saved file at any attempt.
pub proof fn lemma_retry_schedule(o: AttemptOutcome)
    ensures
        is_retryable(o) ==> step_after(1, o) == (RetryStep::Retry {
            delay_ms: BACKOFF_STEP_MS,
            next_attempt: 2,
        }),
        is_retryable(o) ==> step_after(2, o) == (RetryStep::Retry {
            delay_ms: (2 * BACKOFF_STEP_MS) as u64,
            next_attempt: 3,
        }),
        is_retryable(o) ==> step_after(MAX_ATTEMPTS, o) == RetryStep::Failed,
        (o is WriteFailed || o is ReadFailed) ==> forall|k: u32|
            1 <= k <= MAX_ATTEMPTS ==> step_after(k, o) == RetryStep::Failed,
        o is Saved ==> forall|k: u32| 1 <= k <= MAX_ATTEMPTS ==> step_after(k, o) == RetryStep::Succeeded,
{
}

/// The rate of a transfer that moved `bytes` in `elapsed_ms` milliseconds, in
/// bytes per second: zero while no time has passed, at most `u64::MAX`.
pub open spec fn throughput(bytes: nat, elapsed_ms: nat) -> nat {
    if elapsed_ms == 0 {
        0
    } else if bytes * 1000 / elapsed_ms > u64::MAX {
        u64::MAX as nat
    } else {
        bytes * 1000 / elapsed_ms
    }
}

/// The rate of a transfer, in bytes per second.
pub fn bytes_per_second(bytes: u64, elapsed_ms: u64) -> (r: u64)
    ensures
        r == throughput(bytes as nat, elapsed_ms as nat),
{
    if elapsed_ms == 0 {
        return 0;
    }
    let scaled: u128 = (bytes as u128) * 1000;
    let rate: u128 = scaled / (elapsed_ms as u128);
    if rate > u64::MAX as u128 {
        u64::MAX
    } else {
        rate as u64
    }
}

/// One progress notification of a transfer.
#[derive(Clone, Debug)]
pub struct ProgressEvent {
    pub url: String,
    pub path: String,
    pub downloaded: u64,
    pub total: u64,
    pub bytes_per_sec: u64,
}

/// The running count of one attempt's transfer.
pub struct TransferProgress {
    url: String,
    path: String,
    total: u64,
    downloaded: u64,
    written: Ghost<Seq<u8>>,
}

impl TransferProgress {
    /// The count equals the length of the bytes recorded so far.
    pub closed spec fn wf(&self) -> bool {
        self.downloaded as nat == self.written@.len()
    }

    /// Every byte recorded so far, in order.
    pub closed spec fn written(&self) -> Seq<u8> {
        self.written@
    }

    /// The source address.
    pub closed spec fn source(&self) -> Seq<char> {
        self.url@
    }

    /// The destination path.
    pub closed spec fn destination(&self) -> Seq<char> {
        self.path@
    }

    /// The declared body length, zero when unknown.
    pub closed spec fn expected(&self) -> u64 {
        self.total
    }

    /// The number of bytes recorded so far.
    pub closed spec fn count(&self) -> nat {
        self.downloaded as nat
    }

    /// A transfer to `path` from `url` that has recorded nothing; `total` is
    /// the declared body length, zero when unknown.
    pub fn start(url: String, path: String, total: u64) -> (r: Self)
        ensures
            r.wf(),
            r.written() == Seq::<u8>::empty(),
            r.source() == url@,
            r.destination() == path@,
            r.expected() == total,
    {
        TransferProgress { url, path, total, downloaded: 0, written: Ghost(Seq::empty()) }
    }

    /// The number of bytes recorded so far.
    pub fn downloaded(&self) -> (r: u64)
        requires
            self.wf(),
        ensures
            r == self.count(),
            r == self.written().len(),
    {
        self.downloaded
    }

    /// Records one chunk written to the destination after `elapsed_ms`
    /// milliseconds, and returns the notification for it.
    pub fn record_chunk(&mut self, chunk: &[u8], elapsed_ms: u64) -> (ev: ProgressEvent)
        requires
            old(self).wf(),
            old(self).written().len() + chunk@.len() <= u64::MAX,
        ensures
            final(self).wf(),
            final(self).written() == old(self).written() + chunk@,
            final(self).source() == old(self).source(),
            final(self).destination() == old(self).destination(),
            final(self).expected() == old(self).expected(),
            ev.downloaded == final(self).written().len(),
            ev.total == old(self).expected(),
            ev.bytes_per_sec == throughput(ev.downloaded as nat, elapsed_ms as nat),
            ev.url@ == old(self).source(),
            ev.path@ == old(self).destination(),
    {
        self.downloaded = self.downloaded + chunk.len() as u64;
        self.written = Ghost(self.written@ + chunk@);
        ProgressEvent {
            url: self.url.clone(),
            path: self.path.clone(),
            downloaded: self.downloaded,
            total: self.total,
            bytes_per_sec: bytes_per_second(self.downloaded, elapsed_ms),
        }
    }
}

/// The count a transfer reports after its chunks is the length of all the
/// bytes handed to it, which is what the destination file holds.
pub proof fn lemma_count_is_file_length(p: TransferProgress)
    requires
        p.wf(),
    ensures
        p.count() == p.written().len(),
{
}

/// The value of a run of decimal digit bytes.
pub open spec fn digits_value(b: Seq<u8>) -> nat
    decreases b.len(),
{
    if b.len() == 0 {
        0
    } else {
        digits_value(b.drop_last()) * 10 + (b.last() - 48) as nat
    }
}

/// Every byte is an ASCII decimal digit.
pub open spec fn all_digits(b: Seq<u8>) -> bool {
    forall|i: int| 0 <= i < b.len() ==> 48 <= #[trigger] b[i] <= 57
}

/// The unsigned 64-bit number that `b` spells: an optional `+`, then one or
/// more decimal digits, of a value that fits.
pub open spec fn parse_u64(b: Seq<u8>) -> Option<u64> {
    let t = if b.len() > 0 && b[0] == 43 {
        b.drop_first()
    } else {
        b
    };
    if t.len() > 0 && all_digits(t) && digits_value(t) <= u64::MAX {
        Some(digits_value(t) as u64)
    } else {
        None
    }
}

/// The body length a response declares: its length header read as a number,
/// or zero when the header is absent or is not one.
pub open spec fn declared_length(header: Option<Seq<u8>>) -> u64 {
    match header {
        Some(b) => match parse_u64(b) {
            Some(v) => v,
            None => 0,
        },
        None => 0,
    }
}

/// Reads an unsigned 64-bit decimal number.
pub fn parse_decimal_u64(s: &str) -> (r: Option<u64>)
    ensures
        r == parse_u64(s.spec_bytes()),
{
    let b = s.as_bytes();
    let start: usize = if b.len() > 0 && b[0] == 43 {
        1
    } else {
        0
    };
    let ghost t = if b@.len() > 0 && b@[0] == 43 {
        b@.drop_first()
    } else {
        b@
    };
    if start >= b.len() {
        return None;
    }
    let mut v: u64 = 0;
    let mut i: usize = start;
    while i < b.len()
        invariant
            start <= i <= b@.len(),
            b@ == s.spec_bytes(),
            t == b@.subrange(start as int, b@.len() as int),
            t == (if b@.len() > 0 && b@[0] == 43 {
                b@.drop_first()
            } else {
                b@
            }),
            all_digits(t.subrange(0, i - start)),
            v as nat == digits_value(t.subrange(0, i - start)),
        decreases b@.len() - i,
    {
        let c = b[i];
        if c < 48 || c > 57 {
            proof {
                assert(t[i - start] == c);
                assert(!all_digits(t));
            }
            return None;
        }
        let d = (c - 48) as u64;
        proof {
            let u = t.subrange(0, i - start + 1);
            assert(u.drop_last() =~= t.subrange(0, i - start));
            assert(u.last() == c);
        }
        if v > (u64::MAX - d) / 10 {
            proof {
                let u = t.subrange(0, i - start + 1);
                assert(digits_value(u) > u64::MAX) by (nonlinear_arith)
                    requires
                        digits_value(u) == v * 10 + d,
                        v > (u64::MAX - d) / 10,
                        d <= 9,
                ;
                if all_digits(t) {
                    lemma_digits_value_grows(t, i - start + 1);
                }
            }
            return None;
        }
        v = v * 10 + d;
        i = i + 1;
    }
    proof {
        assert(t.subrange(0, t.len() as int) =~= t);
    }
    Some(v)
}

/// A longer run of digits has a value no smaller than its prefix.
proof fn lemma_digits_value_grows(t: Seq<u8>, k: int)
    requires
        0 <= k <= t.len(),
        all_digits(t),
    ensures
        digits_value(t.subrange(0, k)) <= digits_value(t),
    decreases t.len() - k,
{
    if k == t.len() {
        assert(t.subrange(0, k) =~= t);
    } else {
        lemma_digits_value_grows(t, k + 1);
        let u = t.subrange(0, k + 1);
        assert(u.drop_last() =~= t.subrange(0, k));
        assert(u.last() == t[k]);
        assert(48 <= t[k]);
        assert(digits_value(u) == digits_value(u.drop_last()) * 10 + (u.last() - 48) as nat);
    }
}

/// The body length a response declares, from its length header if any.
pub fn declared_total(header: Option<&str>) -> (r: u64)
    ensures
        r == declared_length(
            match header {
                Some(h) => Some(h.spec_bytes()),
                None => None,
            },
        ),
{
    match header {
        Some(h) => match parse_decimal_u64(h) {
            Some(v) => v,
            None => 0,
        },
        None => 0,
    }
}

/// The directory the caller chose, if it named a non-empty one; otherwise
/// the platform's download directory is used.
pub fn chosen_dir(dir: Option<String>) -> (r: Option<String>)
    ensures
        r == (match dir {
            Some(d) => if d@.len() > 0 {
                Some(d)
            } else {
                None
            },
            None => None,
        }),
{
    match dir {
        Some(d) => if d.as_str().is_empty() {
            None
        } else {
            Some(d)
        },
        None => None,
    }
}

} // verus!
