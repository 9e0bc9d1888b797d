//! The scheduling loop's decision core: status classification, the
//! remaining-sleep computation that keeps a fixed wall-clock cadence, the
//! pseudo-random category choice, and the per-tick plan.
use vstd::prelude::*;

verus! {

/// The fixed target interval between tick starts, in milliseconds
/// (30 minutes).
pub const TARGET_INTERVAL_MS: u64 = 1800000;

/// Classification of the HTTP status returned by the feed endpoint.
#[derive(Clone, Copy, Debug, PartialEq, Eq, Structural)]
pub enum StatusClass {
    Success,
    Unauthorized,
    Unexpected,
}

/// What a status code means to the scheduler: 200 is success, 401 is the
/// platform's rate-limited/blocked signal, anything else is unexpected.
pub open spec fn classify_of(code: u16) -> StatusClass {
    if code == 200 {
        StatusClass::Success
    } else if code == 401 {
        StatusClass::Unauthorized
    } else {
        StatusClass::Unexpected
    }
}

/// Classify an HTTP status code from the feed endpoint.
pub fn classify_status(code: u16) -> (r: StatusClass)
    ensures
        r == classify_of(code),
{
    if code == 200 {
        StatusClass::Success
    } else if code == 401 {
        StatusClass::Unauthorized
    } else {
        StatusClass::Unexpected
    }
}

/// How one tick's fetch step ended: either a response arrived, with its HTTP
/// status and whether its body decoded into a content item, or the transport
/// itself failed.
#[derive(Clone, Copy, Debug, PartialEq, Eq, Structural)]
pub enum FetchOutcome {
    Received { status: u16, decoded: bool },
    TransportFailed,
}

/// The scheduler's verdict on one tick.
#[derive(Clone, Copy, Debug, PartialEq, Eq, Structural)]
pub enum TickStep {
    /// Proceed: download the media and publish.
    Publish,
    /// Skip this tick and wait for the next one (non-fatal).
    Skip,
    /// Terminate: an unexpected status or an unclassified transport failure.
    Fatal,
}

/// The tick policy: a successful status with a decoded body is published; a
/// successful status whose body failed to decode is skipped (soft failure),
/// as is an unauthorized status; everything else is fatal.
pub open spec fn plan_of(o: FetchOutcome) -> TickStep {
    match o {
        FetchOutcome::Received { status, decoded } => match classify_of(status) {
            StatusClass::Success => if decoded {
                TickStep::Publish
            } else {
                TickStep::Skip
            },
            StatusClass::Unauthorized => TickStep::Skip,
            StatusClass::Unexpected => TickStep::Fatal,
        },
        FetchOutcome::TransportFailed => TickStep::Fatal,
    }
}

/// Decide what to do with the outcome of one tick's fetch step.
pub fn plan_tick(o: &FetchOutcome) -> (r: TickStep)
    ensures
        r == plan_of(*o),
{
    match *o {
        FetchOutcome::Received { status, decoded } => {
            match classify_status(status) {
                StatusClass::Success => if decoded {
                    TickStep::Publish
                } else {
                    TickStep::Skip
                },
                StatusClass::Unauthorized => TickStep::Skip,
                StatusClass::Unexpected => TickStep::Fatal,
            }
        },
        FetchOutcome::TransportFailed => TickStep::Fatal,
    }
}

/// The sleep owed after a tick: the remainder of the target interval, or
/// nothing when the work already ran past it. Together with the elapsed time
/// it never undershoots the target: `elapsed + r >= target`.
pub fn remaining_wait(target_ms: u64, elapsed_ms: u64) -> (r: u64)
    ensures
        r == if elapsed_ms >= target_ms {
            0u64
        } else {
            (target_ms - elapsed_ms) as u64
        },
        elapsed_ms + r >= target_ms,
        elapsed_ms <= target_ms ==> elapsed_ms + r == target_ms,
{
    if elapsed_ms >= target_ms {
        0
    } else {
        target_ms - elapsed_ms
    }
}

/// A category string is one of the fixed set the scheduler draws from.
pub open spec fn is_category(s: Seq<char>) -> bool {
    ||| s == "programming_memes"@
    ||| s == "anime_memes"@
    ||| s == "linux_memes"@
    ||| s == "programminghumor"@
}

/// Relies on rand::Rng::gen_range, which returns a value uniformly sampled
/// from the given half-open range and panics only when the range is empty.
#[verifier::external_body]
pub(crate) fn random_below(n: usize) -> (r: usize)
    requires
        n > 0,
    ensures
        r < n,
{
    <rand::rngs::ThreadRng as rand::Rng>::gen_range(&mut rand::thread_rng(), 0..n)
}

/// The category standing at one index of the fixed set of four.
pub fn category_of(i: usize) -> (r: &'static str)
    ensures
        is_category(r@),
        i == 0 ==> r@ == "programming_memes"@,
        i == 1 ==> r@ == "anime_memes"@,
        i == 2 ==> r@ == "linux_memes"@,
        i >= 3 ==> r@ == "programminghumor"@,
{
    if i == 0 {
        "programming_memes"
    } else if i == 1 {
        "anime_memes"
    } else if i == 2 {
        "linux_memes"
    } else {
        "programminghumor"
    }
}

/// Draw one feed category pseudo-randomly from the fixed set of four: the
/// category at a uniformly drawn index.
pub fn choose_category() -> (r: &'static str)
    ensures
        is_category(r@),
{
    category_of(random_below(4))
}

} // verus!
