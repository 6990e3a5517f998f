//! Urgent issues the Bakery raises for the operator: the mapped-circuit limit
//! dropping circuits, and the memory guard stopping an apply.
use vstd::prelude::*;
use crate::mapped_limit::MappedLimitStats;
use crate::qdisc_budget::{MemorySnapshot, BAKERY_MEMORY_GUARD_MIN_AVAILABLE_BYTES};
use crate::text::{append_str, dec_seq, dec_string, owned, seq_contains, str_contains};

verus! {

/// Minimum time between two mapped-circuit-limit issues, in seconds.
pub const CIRCUIT_LIMIT_URGENT_INTERVAL_SECONDS: u64 = 1800;

/// Severity of an urgent issue.
#[derive(Clone, Copy, Debug, PartialEq, Eq, Structural)]
pub enum UrgentSeverity {
    /// Needs attention.
    Warning,
    /// Something failed.
    Error,
}

/// An urgent issue to submit, raised by the system.
#[derive(Debug)]
pub struct UrgentIssue {
    /// Severity.
    pub severity: UrgentSeverity,
    /// Machine-readable code.
    pub code: String,
    /// Operator-facing message.
    pub message: String,
    /// JSON context, if any.
    pub context: Option<String>,
    /// Key under which repeated issues are merged.
    pub dedupe_key: String,
}

/// `Mapped circuit limit reached: requested R mapped circuits, allowed A, dropped D.`
pub open spec fn limit_message(stats: MappedLimitStats) -> Seq<char> {
    "Mapped circuit limit reached: requested "@ + dec_seq(stats.requested_mapped as nat)
        + " mapped circuits, allowed "@ + dec_seq(stats.allowed_mapped as nat) + ", dropped "@
        + dec_seq(stats.dropped_mapped as nat) + "."@
}

/// The JSON context of a mapped-circuit-limit issue.
pub open spec fn limit_context(stats: MappedLimitStats) -> Seq<char> {
    "{\"requested_mapped\":"@ + dec_seq(stats.requested_mapped as nat) + ",\"allowed_mapped\":"@
        + dec_seq(stats.allowed_mapped as nat) + ",\"dropped_mapped\":"@ + dec_seq(
        stats.dropped_mapped as nat,
    ) + ",\"enforced_limit\":"@ + match stats.enforced_limit {
        Some(n) => dec_seq(n as nat),
        None => "null"@,
    } + "}"@
}

/// An issue holds exactly the given values.
pub open spec fn issue_is(
    i: UrgentIssue,
    severity: UrgentSeverity,
    code: Seq<char>,
    message: Seq<char>,
    context: Option<Seq<char>>,
    dedupe_key: Seq<char>,
) -> bool {
    &&& i.severity == severity
    &&& i.code@ == code
    &&& i.message@ == message
    &&& crate::commands::opt_view(i.context) == context
    &&& i.dedupe_key@ == dedupe_key
}

/// A mapped-circuit-limit issue is due: circuits were dropped and none was
/// raised in the last half hour (`last_emit_unix` 0 meaning never).
pub open spec fn limit_issue_due(stats: MappedLimitStats, last_emit_unix: u64, now_unix: u64) -> bool {
    &&& stats.dropped_mapped != 0
    &&& !(last_emit_unix != 0 && (if now_unix >= last_emit_unix {
        now_unix - last_emit_unix
    } else {
        0
    }) < CIRCUIT_LIMIT_URGENT_INTERVAL_SECONDS)
}

/// Raises a `MAPPED_CIRCUIT_LIMIT` warning when the limit dropped circuits,
/// at most once per half hour; `last_emit_unix` records when one was last
/// raised.
pub fn maybe_emit_mapped_circuit_limit_urgent(
    stats: &MappedLimitStats,
    last_emit_unix: &mut u64,
    now_unix: u64,
) -> (r: Option<UrgentIssue>)
    ensures
        limit_issue_due(*stats, *old(last_emit_unix), now_unix) ==> {
            &&& *final(last_emit_unix) == now_unix
            &&& r matches Some(i) && issue_is(
                i,
                UrgentSeverity::Warning,
                "MAPPED_CIRCUIT_LIMIT"@,
                limit_message(*stats),
                Some(limit_context(*stats)),
                "mapped_circuit_limit"@,
            )
        },
        !limit_issue_due(*stats, *old(last_emit_unix), now_unix) ==> {
            &&& *final(last_emit_unix) == *old(last_emit_unix)
            &&& r is None
        },
{
    if stats.dropped_mapped == 0 {
        return None;
    }
    let last = *last_emit_unix;
    if last != 0 && now_unix.saturating_sub(last) < CIRCUIT_LIMIT_URGENT_INTERVAL_SECONDS {
        return None;
    }
    *last_emit_unix = now_unix;
    let mut message = owned("Mapped circuit limit reached: requested ");
    append_str(&mut message, dec_string(stats.requested_mapped as u64).as_str());
    append_str(&mut message, " mapped circuits, allowed ");
    append_str(&mut message, dec_string(stats.allowed_mapped as u64).as_str());
    append_str(&mut message, ", dropped ");
    append_str(&mut message, dec_string(stats.dropped_mapped as u64).as_str());
    append_str(&mut message, ".");
    let mut context = owned("{\"requested_mapped\":");
    append_str(&mut context, dec_string(stats.requested_mapped as u64).as_str());
    append_str(&mut context, ",\"allowed_mapped\":");
    append_str(&mut context, dec_string(stats.allowed_mapped as u64).as_str());
    append_str(&mut context, ",\"dropped_mapped\":");
    append_str(&mut context, dec_string(stats.dropped_mapped as u64).as_str());
    append_str(&mut context, ",\"enforced_limit\":");
    match stats.enforced_limit {
        Some(n) => append_str(&mut context, dec_string(n as u64).as_str()),
        None => append_str(&mut context, "null"),
    }
    append_str(&mut context, "}");
    Some(
        UrgentIssue {
            severity: UrgentSeverity::Warning,
            code: owned("MAPPED_CIRCUIT_LIMIT"),
            message,
            context: Some(context),
            dedupe_key: owned("mapped_circuit_limit"),
        },
    )
}

/// The JSON context of a memory-guard issue.
pub open spec fn memory_context(s: MemorySnapshot) -> Seq<char> {
    "{\"available_bytes\":"@ + dec_seq(s.available_bytes as nat) + ",\"total_bytes\":"@ + dec_seq(
        s.total_bytes as nat,
    ) + ",\"memory_guard_floor_bytes\":"@ + dec_seq(BAKERY_MEMORY_GUARD_MIN_AVAILABLE_BYTES as nat)
        + "}"@
}

/// Raises a `BAKERY_MEMORY_GUARD` error when an apply summary says the memory
/// guard stopped it; the host memory, when it could be read, goes into the
/// context.
pub fn maybe_emit_memory_guard_urgent(summary: &str, snapshot: Option<MemorySnapshot>) -> (r: Option<
    UrgentIssue,
>)
    ensures
        !seq_contains(summary@, "Bakery memory guard stopped"@) ==> r is None,
        seq_contains(summary@, "Bakery memory guard stopped"@) ==> (r matches Some(i) && issue_is(
            i,
            UrgentSeverity::Error,
            "BAKERY_MEMORY_GUARD"@,
            summary@,
            match snapshot {
                Some(s) => Some(memory_context(s)),
                None => None,
            },
            "bakery_memory_guard"@,
        )),
{
    if !str_contains(summary, "Bakery memory guard stopped") {
        return None;
    }
    let context = match snapshot {
        Some(s) => {
            let mut c = owned("{\"available_bytes\":");
            append_str(&mut c, dec_string(s.available_bytes).as_str());
            append_str(&mut c, ",\"total_bytes\":");
            append_str(&mut c, dec_string(s.total_bytes).as_str());
            append_str(&mut c, ",\"memory_guard_floor_bytes\":");
            append_str(&mut c, dec_string(BAKERY_MEMORY_GUARD_MIN_AVAILABLE_BYTES).as_str());
            append_str(&mut c, "}");
            Some(c)
        },
        None => None,
    };
    Some(
        UrgentIssue {
            severity: UrgentSeverity::Error,
            code: owned("BAKERY_MEMORY_GUARD"),
            message: owned(summary),
            context,
            dedupe_key: owned("bakery_memory_guard"),
        },
    )
}

} // verus!
