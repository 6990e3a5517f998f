//! The slice of the LibreQoS configuration that Bakery's planning logic reads.
use vstd::prelude::*;
use crate::text::owned;

verus! {

/// Lazy queue creation mode.
#[derive(Clone, Copy, Debug, PartialEq, Eq, Structural)]
pub enum LazyQueueMode {
    /// Queues are created eagerly.
    No,
    /// HTB classes are created eagerly; SQM qdiscs lazily.
    Htb,
    /// Both HTB classes and SQM qdiscs are created lazily.
    Full,
}

/// Interfaces and queue modes used when planning `tc` commands.
#[derive(Debug)]
pub struct BakeryConfig {
    /// ISP-facing (downlink) interface name.
    pub isp_interface: String,
    /// Internet-facing (uplink) interface name.
    pub internet_interface: String,
    /// Single-interface ("on a stick") deployment.
    pub on_a_stick: bool,
    /// `queue_mode = observe`: the root MQ is kept but no shaping tree is live.
    pub observe_mode: bool,
    /// Lazy queue mode, if configured.
    pub lazy_queues: Option<LazyQueueMode>,
    /// Monitor-only mode: no SQM qdiscs are attached.
    pub monitor_only: bool,
}

impl BakeryConfig {
    /// ISP-facing interface name.
    pub fn isp_interface(&self) -> (r: String)
        ensures
            r@ == self.isp_interface@,
    {
        owned(self.isp_interface.as_str())
    }

    /// Internet-facing interface name.
    pub fn internet_interface(&self) -> (r: String)
        ensures
            r@ == self.internet_interface@,
    {
        owned(self.internet_interface.as_str())
    }

    /// Whether Bakery runs on a single interface.
    pub fn on_a_stick_mode(&self) -> (r: bool)
        ensures
            r == self.on_a_stick,
    {
        self.on_a_stick
    }

    /// Whether the queue mode is `observe`.
    pub fn is_observe(&self) -> (r: bool)
        ensures
            r == self.observe_mode,
    {
        self.observe_mode
    }
}

} // verus!
