//! The counters of the service.

use vstd::prelude::*;

verus! {

/// How many journalled events may pass between two checks of the journal's
/// size.
pub const PENDING_JOURNAL_COMPACT_CHECK_EVERY: u64 = 1024;

/// What the service has counted since its start. Counters start again at zero
/// where they overflow.
#[derive(Clone, Copy, Debug, PartialEq, Eq, Structural)]
pub struct ServiceStats {
    pub accepted_events: u64,
    pub executed_events: u64,
    pub db_errors: u64,
    pub parse_errors: u64,
    pub dropped_events: u64,
    pub journal_pending_startup: u64,
    pub journal_replayed_startup: u64,
    pub journal_done_records_startup: u64,
    pub journal_bad_lines_startup: u64,
    pub journal_compactions: u64,
    pub journal_events_since_compaction_check: u64,
}

/// A counter after `n` more.
pub open spec fn counted(counter: u64, n: nat) -> u64 {
    ((counter + n) % 0x1_0000_0000_0000_0000) as u64
}

/// Adds `n` to a counter.
pub fn count(counter: u64, n: usize) -> (r: u64)
    ensures
        r == counted(counter, n as nat),
{
    counter.wrapping_add(n as u64)
}

impl ServiceStats {
    /// All counters at zero.
    pub open spec fn zero() -> ServiceStats {
        ServiceStats {
            accepted_events: 0,
            executed_events: 0,
            db_errors: 0,
            parse_errors: 0,
            dropped_events: 0,
            journal_pending_startup: 0,
            journal_replayed_startup: 0,
            journal_done_records_startup: 0,
            journal_bad_lines_startup: 0,
            journal_compactions: 0,
            journal_events_since_compaction_check: 0,
        }
    }

    /// All counters at zero.
    pub fn new() -> (stats: Self)
        ensures
            stats == ServiceStats::zero(),
    {
        ServiceStats {
            accepted_events: 0,
            executed_events: 0,
            db_errors: 0,
            parse_errors: 0,
            dropped_events: 0,
            journal_pending_startup: 0,
            journal_replayed_startup: 0,
            journal_done_records_startup: 0,
            journal_bad_lines_startup: 0,
            journal_compactions: 0,
            journal_events_since_compaction_check: 0,
        }
    }
}

/// A counter goes up by as much as is counted, as far as it reaches, and starts
/// again at zero beyond that.
pub proof fn law_counters_count(counter: u64, n: nat)
    requires
        n <= u64::MAX,
    ensures
        counter + n <= u64::MAX ==> counted(counter, n) == counter + n,
        counter + n > u64::MAX ==> counted(counter, n) == counter + n - u64::MAX - 1,
{
}

/// A service that has just started has counted nothing.
pub proof fn law_counters_start_at_zero()
    ensures
        ServiceStats::zero().accepted_events == 0,
        ServiceStats::zero().executed_events == 0,
        ServiceStats::zero().db_errors == 0,
        ServiceStats::zero().parse_errors == 0,
        ServiceStats::zero().dropped_events == 0,
        ServiceStats::zero().journal_pending_startup == 0,
        ServiceStats::zero().journal_replayed_startup == 0,
        ServiceStats::zero().journal_done_records_startup == 0,
        ServiceStats::zero().journal_bad_lines_startup == 0,
        ServiceStats::zero().journal_compactions == 0,
        ServiceStats::zero().journal_events_since_compaction_check == 0,
{
}

} // verus!
