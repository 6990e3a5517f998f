//! Verified core of the Bakery queue tracker: `tc` handle arithmetic,
//! command planning, topology diffing, runtime-branch bookkeeping and the
//! operator-facing telemetry state machine.
use vstd::prelude::*;

pub mod text;
pub mod tc_handle;
pub mod config;
pub mod commands;
pub mod maps;
pub mod summary;
pub mod diff;
pub mod telemetry;
pub mod grouped_events;
pub mod live_tc;
pub mod shaping_state;
pub mod runtime;
pub mod site_tree;
pub mod mapped_limit;
pub mod migration;
pub mod prune;
pub mod qdisc_budget;
pub mod hierarchy;
pub mod runtime_branch;
pub mod handle_invariants;
pub mod live_verify;
pub mod overlay;
pub mod lazy_queues;
pub mod stormguard;
pub mod urgent;
pub mod subtree_prune;
pub mod deferred_prune;
pub mod admission;
pub mod ip_mapping;
pub mod migration_stages;
pub mod queue_distribution;
pub mod dynamic_overlay;
pub mod mq_setup;
pub mod circuit_add;
pub mod commit_plan;
pub mod acyclic;
pub mod laws;
pub mod command_laws;

verus! {

} // verus!
