//! Process-wide shaping flags and the rules that decide whether the live
//! shaping tree may be mutated.
use vstd::prelude::*;
use crate::config::BakeryConfig;
use crate::text::owned;

verus! {

/// Whether a full reload is running, whether the shaping tree is live, and how
/// many circuits are active.
#[derive(Clone, Copy, Debug, PartialEq, Eq, Structural)]
pub struct ShapingFlags {
    /// A full reload batch is being applied.
    pub full_reload_in_progress: bool,
    /// The shaping tree beneath the root `mq` is live.
    pub shaping_tree_active: bool,
    /// Number of active circuits.
    pub active_circuits: usize,
}

impl ShapingFlags {
    /// Flags before Bakery has built anything.
    pub fn new() -> (r: Self)
        ensures
            !r.full_reload_in_progress,
            !r.shaping_tree_active,
            r.active_circuits == 0,
    {
        ShapingFlags { full_reload_in_progress: false, shaping_tree_active: false, active_circuits: 0 }
    }
}

/// `true` while Bakery is applying a full reload batch.
pub fn full_reload_in_progress(flags: &ShapingFlags) -> (r: bool)
    ensures
        r == flags.full_reload_in_progress,
{
    flags.full_reload_in_progress
}

/// Sets the shaping-tree-active flag and returns its previous value.
pub fn set_shaping_tree_active_for_tests(flags: &mut ShapingFlags, active: bool) -> (r: bool)
    ensures
        r == old(flags).shaping_tree_active,
        *final(flags) == (ShapingFlags { shaping_tree_active: active, ..*old(flags) }),
{
    let previous = flags.shaping_tree_active;
    flags.shaping_tree_active = active;
    previous
}

/// The shaping tree should be live unless the queue mode is `observe`.
pub fn desired_shaping_tree_active(config: &BakeryConfig) -> (r: bool)
    ensures
        r == !config.observe_mode,
{
    !config.is_observe()
}

/// Why live shaping-tree mutations are blocked, if they are.
pub open spec fn mutation_blocker(flags: ShapingFlags, observe_mode: bool) -> Option<Seq<char>> {
    if flags.full_reload_in_progress {
        Some("a full reload is currently in progress"@)
    } else if observe_mode {
        Some("queue_mode is observe; root MQ is retained but the shaping tree is not live"@)
    } else if !flags.shaping_tree_active {
        Some("the shaping tree is not currently active"@)
    } else {
        None
    }
}

/// Why live shaping-tree mutations are blocked under this configuration, if
/// they are: a running full reload, `observe` mode, or an inactive tree.
pub fn live_tree_mutation_blocker_for_config(flags: &ShapingFlags, config: &BakeryConfig) -> (r:
    Option<String>)
    ensures
        crate::commands::opt_view(r) == mutation_blocker(*flags, config.observe_mode),
{
    if flags.full_reload_in_progress {
        return Some(owned("a full reload is currently in progress"));
    }
    if config.is_observe() {
        return Some(owned("queue_mode is observe; root MQ is retained but the shaping tree is not live"));
    }
    if !flags.shaping_tree_active {
        return Some(owned("the shaping tree is not currently active"));
    }
    None
}

/// Whether live shaping-tree mutations are allowed under this configuration.
pub fn live_tree_mutations_allowed(flags: &ShapingFlags, config: &BakeryConfig) -> (r: bool)
    ensures
        r == (mutation_blocker(*flags, config.observe_mode) is None),
{
    live_tree_mutation_blocker_for_config(flags, config).is_none()
}

/// Why live shaping-tree mutations are blocked, given the configuration if it
/// could be loaded.
pub fn bakery_live_tree_mutation_blocker(flags: &ShapingFlags, config: Option<&BakeryConfig>) -> (r:
    Option<String>)
    ensures
        match config {
            Some(c) => crate::commands::opt_view(r) == mutation_blocker(*flags, c.observe_mode),
            None => crate::commands::opt_view(r) == Some("configuration could not be loaded"@),
        },
{
    match config {
        Some(c) => live_tree_mutation_blocker_for_config(flags, c),
        None => Some(owned("configuration could not be loaded")),
    }
}

/// The interfaces Bakery shapes: the ISP side, plus the internet side unless
/// running on a stick.
pub fn managed_interfaces_for_config(config: &BakeryConfig) -> (r: Vec<String>)
    ensures
        config.on_a_stick ==> r@.len() == 1,
        !config.on_a_stick ==> r@.len() == 2 && r@[1]@ == config.internet_interface@,
        r@[0]@ == config.isp_interface@,
{
    let mut interfaces = vec![config.isp_interface()];
    if !config.on_a_stick_mode() {
        interfaces.push(config.internet_interface());
    }
    interfaces
}

} // verus!
