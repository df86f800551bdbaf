//! Instants on the UTC time line and the time that passed between two of them.

use vstd::prelude::*;

verus! {

/// An instant: whole seconds since the start of 1970 (UTC) and the
/// nanoseconds into that second.
#[derive(Debug, Clone, Copy, PartialEq, Eq)]
pub struct Timestamp {
    pub secs: i64,
    pub nanos: u32,
}

/// The whole milliseconds from `earlier` to `later` as `chrono` counts them,
/// or `None` where `chrono` cannot represent one of the two instants.
pub uninterp spec fn elapsed_millis(later: Timestamp, earlier: Timestamp) -> Option<int>;

impl Timestamp {
    /// Reads the clock through `chrono::Utc::now` and keeps the instant's
    /// seconds (`timestamp`) and nanoseconds (`timestamp_subsec_nanos`).
    ///
    /// The result depends on the clock, so nothing is claimed about it.
    /// `Utc::now` does not return when the system clock stands before 1970.
    #[verifier::external_body]
    pub(crate) fn now() -> (t: Timestamp) {
        let t = chrono::Utc::now();
        Timestamp { secs: t.timestamp(), nanos: t.timestamp_subsec_nanos() }
    }

    /// Rebuilds both instants with `chrono::DateTime::from_timestamp` and
    /// measures with `DateTime::signed_duration_since` and
    /// `TimeDelta::num_milliseconds`.
    ///
    /// The result is a function of the two instants alone and is named
    /// [`elapsed_millis`]. It is `None` when `from_timestamp` rejects an
    /// instant.
    #[verifier::external_body]
    pub(crate) fn millis_since(&self, earlier: &Timestamp) -> (elapsed: Option<i64>)
        ensures
            elapsed matches Some(ms) ==> elapsed_millis(*self, *earlier) == Some(ms as int),
            elapsed is None ==> elapsed_millis(*self, *earlier) is None,
    {
        let later = chrono::DateTime::from_timestamp(self.secs, self.nanos)?;
        let earlier = chrono::DateTime::from_timestamp(earlier.secs, earlier.nanos)?;
        Some(later.signed_duration_since(earlier).num_milliseconds())
    }
}

} // verus!
