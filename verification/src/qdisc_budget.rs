//! Qdisc budget preflight: reading planned `qdisc` commands and deciding
//! whether a planned full reload fits the per-interface handle budget and the
//! host's memory.
use vstd::prelude::*;
use crate::tc_handle::{parse_tc_handle, TcHandle};
use crate::text::{append_str, owned};

verus! {

/// Estimated kernel memory of an infrastructure qdisc (`mq`, `htb`, ...).
pub const INFRA_QDISC_ESTIMATED_MEMORY_BYTES: u64 = 16384;
/// Estimated kernel memory of an `fq_codel` leaf qdisc.
pub const FQ_CODEL_QDISC_ESTIMATED_MEMORY_BYTES: u64 = 65536;
/// Estimated kernel memory of a `cake` leaf qdisc.
pub const CAKE_QDISC_ESTIMATED_MEMORY_BYTES: u64 = 524288;
/// Memory that must stay available after a full reload.
pub const BAKERY_MEMORY_GUARD_MIN_AVAILABLE_BYTES: u64 = 805306368;

/// Host memory as last read.
#[derive(Clone, Copy, Debug, PartialEq, Eq, Structural)]
pub struct MemorySnapshot {
    /// Available memory, in bytes.
    pub available_bytes: u64,
    /// Total memory, in bytes.
    pub total_bytes: u64,
}

/// Estimated qdisc-handle usage for a planned full reload.
#[derive(Clone, Copy, Debug, PartialEq, Eq, Structural)]
pub struct QdiscInterfaceEstimate {
    /// Total planned qdiscs for the interface.
    pub planned_qdiscs: usize,
    /// Planned infrastructure qdiscs (`mq`, `htb`, etc.) for the interface.
    pub infra_qdiscs: usize,
    /// Planned CAKE leaf qdiscs for the interface.
    pub cake_qdiscs: usize,
    /// Planned fq_codel leaf qdiscs for the interface.
    pub fq_codel_qdiscs: usize,
    /// Estimated kernel memory cost for the interface's planned qdiscs.
    pub estimated_memory_bytes: u64,
}

/// Estimated qdisc budget and conservative memory-safety forecast for a planned full reload.
#[derive(Debug)]
pub struct QdiscBudgetEstimate {
    /// Estimated total qdisc count per network interface, by interface name.
    pub interfaces: Vec<(String, usize)>,
    /// Detailed per-interface qdisc breakdown, by interface name.
    pub interface_details: Vec<(String, QdiscInterfaceEstimate)>,
    /// Conservative operational limit enforced before a full reload is committed.
    pub safe_budget: usize,
    /// Kernel hard limit for the per-device qdisc-handle namespace.
    pub hard_limit: usize,
    /// Estimated total kernel memory cost of the planned qdisc model.
    pub estimated_total_memory_bytes: u64,
    /// Host memory snapshot used for preflight, if available.
    pub memory_snapshot: Option<MemorySnapshot>,
    /// Whether the memory preflight passed.
    pub memory_ok: bool,
}

/// Every planned per-interface count fits the safe budget. (The memory
/// preflight is reported on its own, in `memory_ok`.)
pub open spec fn budget_ok(e: QdiscBudgetEstimate) -> bool {
    forall|i: int| 0 <= i < e.interfaces@.len() ==> #[trigger] e.interfaces@[i].1 <= e.safe_budget
}

impl QdiscBudgetEstimate {
    /// Returns `true` when all planned per-interface counts fit within the safe budget.
    pub fn ok(&self) -> (r: bool)
        ensures
            r == budget_ok(*self),
    {
        let mut i: usize = 0;
        while i < self.interfaces.len()
            invariant
                i <= self.interfaces@.len(),
                forall|j: int| 0 <= j < i ==> #[trigger] self.interfaces@[j].1 <= self.safe_budget,
            decreases self.interfaces@.len() - i,
        {
            if self.interfaces[i].1 > self.safe_budget {
                return false;
            }
            i = i + 1;
        }
        true
    }
}

/// Whether the memory left after the planned qdiscs stays above the guard:
/// unknown memory passes.
pub open spec fn memory_fits(snapshot: Option<MemorySnapshot>, estimated: u64) -> bool {
    match snapshot {
        None => true,
        Some(s) => (if s.available_bytes >= BAKERY_MEMORY_GUARD_MIN_AVAILABLE_BYTES {
            s.available_bytes - BAKERY_MEMORY_GUARD_MIN_AVAILABLE_BYTES
        } else {
            0
        }) >= estimated,
    }
}

/// The memory preflight of a planned full reload.
pub fn memory_preflight_ok(snapshot: Option<MemorySnapshot>, estimated: u64) -> (r: bool)
    ensures
        r == memory_fits(snapshot, estimated),
{
    match snapshot {
        None => true,
        Some(s) => s.available_bytes.saturating_sub(BAKERY_MEMORY_GUARD_MIN_AVAILABLE_BYTES) >= estimated,
    }
}

/// Index of the first `key` argument that has a value after it.
pub open spec fn arg_key_index(argv: Seq<Seq<char>>, key: Seq<char>) -> Option<int>
    decreases argv.len(),
{
    if argv.len() < 2 {
        None
    } else {
        match arg_key_index(argv.drop_last(), key) {
            Some(i) => Some(i),
            None => if argv[argv.len() - 2] == key {
                Some(argv.len() - 2)
            } else {
                None
            },
        }
    }
}

/// `arg_key_index` finds the first matching position.
proof fn lemma_arg_key_index(argv: Seq<Seq<char>>, key: Seq<char>)
    ensures
        arg_key_index(argv, key) matches Some(i) ==> 0 <= i < argv.len() - 1 && argv[i] == key && forall|
            j: int,
        | 0 <= j < i ==> argv[j] != key,
        arg_key_index(argv, key) is None ==> forall|j: int| 0 <= j < argv.len() - 1 ==> argv[j] != key,
    decreases argv.len(),
{
    if argv.len() >= 2 {
        let d = argv.drop_last();
        lemma_arg_key_index(d, key);
        assert forall|j: int| 0 <= j < d.len() implies d[j] == argv[j] by {}
    }
}

/// The value after the first `key` argument (`argv.windows(2)` search).
pub open spec fn arg_value(argv: Seq<Seq<char>>, key: Seq<char>) -> Option<Seq<char>> {
    match arg_key_index(argv, key) {
        Some(i) => Some(argv[i + 1]),
        None => None,
    }
}

/// The value following the first occurrence of `key`, if any.
pub fn find_arg_value<'a>(argv: &'a Vec<String>, key: &str) -> (r: Option<&'a str>)
    ensures
        match r {
            Some(v) => arg_value(argv.deep_view(), key@) == Some(v@),
            None => arg_value(argv.deep_view(), key@) is None,
        },
{
    let kc = crate::text::chars_of(key);
    let ghost a = argv.deep_view();
    let mut i: usize = 0;
    while i < argv.len() && argv.len() - i > 1
        invariant
            i <= argv@.len(),
            kc@ == key@,
            a == argv.deep_view(),
            forall|j: int| 0 <= j < i ==> a[j] != key@,
        decreases argv@.len() - i,
    {
        let here = crate::text::chars_of(argv[i].as_str());
        assert(a[i as int] == argv@[i as int]@);
        if crate::tc_handle::vec_eq(&here, &kc) {
            proof {
                lemma_arg_key_index(a, key@);
                if let Some(x) = arg_key_index(a, key@) {
                    if x < i {
                        assert(a[x] != key@);
                    }
                }
                assert(a[i + 1] == argv@[i + 1]@);
            }
            return Some(argv[i + 1].as_str());
        }
        i = i + 1;
    }
    proof {
        lemma_arg_key_index(a, key@);
    }
    None
}

/// Kind of a planned qdisc for budgeting.
#[derive(Clone, Copy, Debug, PartialEq, Eq, Structural)]
pub enum PlannedQdiscKind {
    /// Infrastructure (`mq`, `htb`, or a non-leaf SQM).
    Infra,
    /// `cake` leaf.
    Cake,
    /// `fq_codel` leaf.
    FqCodel,
}

/// A qdisc attached below a class other than a queue root's `:1`/`:2`.
pub open spec fn is_leaf_argv(argv: Seq<Seq<char>>) -> bool {
    match arg_value(argv, "parent"@) {
        Some(p) => match parse_tc_handle(p) {
            Ok(v) => crate::tc_handle::minor_of(v) != 1 && crate::tc_handle::minor_of(v) != 2,
            Err(_) => false,
        },
        None => false,
    }
}

/// Whether a planned qdisc hangs below a circuit or site class (a leaf).
pub fn planned_qdisc_is_leaf(argv: &Vec<String>) -> (r: bool)
    ensures
        r == is_leaf_argv(argv.deep_view()),
{
    match find_arg_value(argv, "parent") {
        None => false,
        Some(parent) => match TcHandle::from_string(parent) {
            Ok(h) => {
                let (_, minor) = h.get_major_minor();
                minor != 1 && minor != 2
            },
            Err(_) => false,
        },
    }
}

/// `qdisc add` or `qdisc replace`.
pub open spec fn adds_qdisc(argv: Seq<Seq<char>>) -> bool {
    argv.len() >= 2 && argv[0] == "qdisc"@ && (argv[1] == "add"@ || argv[1] == "replace"@)
}

/// The budgeting kind of a planned qdisc command.
pub open spec fn planned_kind(argv: Seq<Seq<char>>) -> Option<PlannedQdiscKind> {
    if !adds_qdisc(argv) {
        None
    } else if argv.contains("cake"@) {
        Some(if is_leaf_argv(argv) {
            PlannedQdiscKind::Cake
        } else {
            PlannedQdiscKind::Infra
        })
    } else if argv.contains("fq_codel"@) {
        Some(if is_leaf_argv(argv) {
            PlannedQdiscKind::FqCodel
        } else {
            PlannedQdiscKind::Infra
        })
    } else {
        Some(PlannedQdiscKind::Infra)
    }
}

/// Whether some argument equals `word`.
fn has_arg(argv: &Vec<String>, word: &str) -> (r: bool)
    ensures
        r == argv.deep_view().contains(word@),
{
    let wc = crate::text::chars_of(word);
    let mut i: usize = 0;
    while i < argv.len()
        invariant
            i <= argv@.len(),
            wc@ == word@,
            forall|j: int| 0 <= j < i ==> argv.deep_view()[j] != word@,
        decreases argv@.len() - i,
    {
        assert(argv.deep_view()[i as int] == argv@[i as int]@);
        if crate::tc_handle::vec_eq(&crate::text::chars_of(argv[i].as_str()), &wc) {
            assert(argv.deep_view()[i as int] == word@);
            return true;
        }
        i = i + 1;
    }
    false
}

/// Whether argument `i` equals `word`.
fn arg_is(argv: &Vec<String>, i: usize, word: &str) -> (r: bool)
    requires
        i < argv@.len(),
    ensures
        r == (argv.deep_view()[i as int] == word@),
{
    assert(argv.deep_view()[i as int] == argv@[i as int]@);
    crate::tc_handle::vec_eq(&crate::text::chars_of(argv[i].as_str()), &crate::text::chars_of(word))
}

/// The budgeting kind of a planned `qdisc add`/`replace` command; `None` for
/// anything else.
pub fn planned_qdisc_kind(argv: &Vec<String>) -> (r: Option<PlannedQdiscKind>)
    ensures
        r == planned_kind(argv.deep_view()),
{
    if argv.len() < 2 || !arg_is(argv, 0, "qdisc") {
        return None;
    }
    if !arg_is(argv, 1, "add") && !arg_is(argv, 1, "replace") {
        return None;
    }
    if has_arg(argv, "cake") {
        return Some(
            if planned_qdisc_is_leaf(argv) {
                PlannedQdiscKind::Cake
            } else {
                PlannedQdiscKind::Infra
            },
        );
    }
    if has_arg(argv, "fq_codel") {
        return Some(
            if planned_qdisc_is_leaf(argv) {
                PlannedQdiscKind::FqCodel
            } else {
                PlannedQdiscKind::Infra
            },
        );
    }
    Some(PlannedQdiscKind::Infra)
}

/// Estimated kernel memory of one qdisc of a kind.
pub fn qdisc_kind_estimated_memory_bytes(kind: PlannedQdiscKind) -> (r: u64)
    ensures
        r == match kind {
            PlannedQdiscKind::Infra => INFRA_QDISC_ESTIMATED_MEMORY_BYTES,
            PlannedQdiscKind::Cake => CAKE_QDISC_ESTIMATED_MEMORY_BYTES,
            PlannedQdiscKind::FqCodel => FQ_CODEL_QDISC_ESTIMATED_MEMORY_BYTES,
        },
{
    match kind {
        PlannedQdiscKind::Infra => INFRA_QDISC_ESTIMATED_MEMORY_BYTES,
        PlannedQdiscKind::Cake => CAKE_QDISC_ESTIMATED_MEMORY_BYTES,
        PlannedQdiscKind::FqCodel => FQ_CODEL_QDISC_ESTIMATED_MEMORY_BYTES,
    }
}

/// The device and identity of a planned qdisc: `handle:<h>` when an explicit
/// handle is given, else `parent:<p>`.
pub open spec fn planned_identity(argv: Seq<Seq<char>>) -> Option<(Seq<char>, Seq<char>)> {
    if !adds_qdisc(argv) {
        None
    } else {
        match arg_value(argv, "dev"@) {
            None => None,
            Some(dev) => match arg_value(argv, "handle"@) {
                Some(h) => Some((dev, "handle:"@ + h)),
                None => match arg_value(argv, "parent"@) {
                    Some(p) => Some((dev, "parent:"@ + p)),
                    None => None,
                },
            },
        }
    }
}

/// The device and identity under which a planned qdisc is counted once.
pub fn planned_qdisc_identity(argv: &Vec<String>) -> (r: Option<(String, String)>)
    ensures
        match r {
            Some((d, i)) => planned_identity(argv.deep_view()) == Some((d@, i@)),
            None => planned_identity(argv.deep_view()) is None,
        },
{
    if argv.len() < 2 || !arg_is(argv, 0, "qdisc") {
        return None;
    }
    if !arg_is(argv, 1, "add") && !arg_is(argv, 1, "replace") {
        return None;
    }
    let dev = match find_arg_value(argv, "dev") {
        Some(d) => owned(d),
        None => {
            return None;
        },
    };
    match find_arg_value(argv, "handle") {
        Some(h) => {
            let mut id = owned("handle:");
            append_str(&mut id, h);
            return Some((dev, id));
        },
        None => {},
    }
    match find_arg_value(argv, "parent") {
        Some(p) => {
            let mut id = owned("parent:");
            append_str(&mut id, p);
            Some((dev, id))
        },
        None => None,
    }
}

} // verus!
