//! Result data of one probe: a classified status, the elapsed time and a
//! completion timestamp, correlated to the probed URL.

use vstd::prelude::*;

verus! {

/// Classified result of one full attempt sequence against a URL.
///
/// Receiving any HTTP response at all, whatever the status code, is a
/// `Success`; `Failure` means no response was ever obtained (a
/// transport-level failure), and carries the last error description. The
/// data model fixes success codes to the range 100 to 599 (see
/// [`valid_status_code`]); the shell checks every received code against
/// that range before handing it in.
#[derive(Debug)]
pub enum ProbeStatus {
    Success(u16),
    Failure(String),
}

/// The completed result for one URL: exactly one of these is produced per
/// input URL of a run.
#[derive(Debug)]
pub struct ProbeOutcome {
    /// The original URL string, for correlation with the input.
    pub url: String,
    /// Success with the HTTP status code, or Failure with an error text.
    pub status: ProbeStatus,
    /// Wall-clock duration of the full attempt sequence in milliseconds,
    /// including backoff waits between attempts.
    pub elapsed_ms: u64,
    /// Wall-clock timestamp (milliseconds since the epoch) at which the
    /// attempt sequence completed.
    pub observed_at_ms: u64,
}

impl ProbeStatus {
    /// True when at least one attempt obtained an HTTP response.
    pub fn is_success(&self) -> (r: bool)
        ensures
            r == self is Success,
    {
        match self {
            ProbeStatus::Success(_) => true,
            ProbeStatus::Failure(_) => false,
        }
    }
}

/// What one HTTP GET attempt reported back: either a response arrived,
/// carrying its status code, or the attempt failed at the transport level
/// (connection error, DNS failure, per-attempt timeout), carrying an error
/// description.
#[derive(Debug)]
pub enum AttemptEvent {
    Response(u16),
    TransportError(String),
}

/// An HTTP status code as the data model fixes it: the range 100 to 599.
pub open spec fn valid_status_code(c: u16) -> bool {
    100 <= c <= 599
}

/// Whether a code lies in the status-code range of the data model. The
/// shell checks every received response against this before handing it in
/// as an [`AttemptEvent::Response`].
pub fn is_valid_status_code(c: u16) -> (r: bool)
    ensures
        r == valid_status_code(c),
{
    100 <= c && c <= 599
}

impl ProbeStatus {
    /// A success carries a code in the data model's range; a failure only
    /// carries text.
    pub open spec fn wf(self) -> bool {
        match self {
            ProbeStatus::Success(c) => valid_status_code(c),
            ProbeStatus::Failure(_) => true,
        }
    }
}

impl ProbeOutcome {
    /// The outcome respects the data model: its status does.
    pub open spec fn wf(self) -> bool {
        self.status.wf()
    }
}

impl AttemptEvent {
    /// A response event carries a code in the data model's range.
    pub open spec fn wf(self) -> bool {
        match self {
            AttemptEvent::Response(c) => valid_status_code(c),
            AttemptEvent::TransportError(_) => true,
        }
    }
}

/// `a + b` clamped to `u64::MAX`, as a specification value.
pub open spec fn clamp_u64(x: int) -> int {
    if x > u64::MAX { u64::MAX as int } else { x }
}

/// Saturating addition on `u64`: durations are summed with this, so that a
/// run never fails on arithmetic however absurd the clock values are.
pub fn sat_add_u64(a: u64, b: u64) -> (r: u64)
    ensures
        r == clamp_u64(a + b),
{
    if a <= u64::MAX - b {
        a + b
    } else {
        u64::MAX
    }
}

} // verus!
