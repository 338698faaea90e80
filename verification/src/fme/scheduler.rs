//! Counters of the packet scheduler.
use vstd::prelude::*;

use crate::fme::model::MorphedPacket;

verus! {

/// Where scheduled packets are sent; implemented by the user of the
/// scheduler.
pub trait AsyncPacketSender: Send {
    /// The future of one send.
    type Sending: std::future::Future<Output = ()> + Send;

    /// Sends one packet.
    fn send(&mut self, packet: MorphedPacket) -> Self::Sending;
}

/// What the scheduler has done so far.
#[derive(Debug, Clone, Copy, PartialEq, Eq, Structural)]
pub struct SchedulerMetrics {
    pub bytes_morphed: u64,
    pub packets_scheduled: u64,
    pub queue_depth: u64,
    pub avg_jitter_us: u64,
}

impl Default for SchedulerMetrics {
    /// All counters at zero.
    fn default() -> (r: SchedulerMetrics)
        ensures
            r == (SchedulerMetrics { bytes_morphed: 0, packets_scheduled: 0, queue_depth: 0, avg_jitter_us: 0 }),
    {
        SchedulerMetrics { bytes_morphed: 0, packets_scheduled: 0, queue_depth: 0, avg_jitter_us: 0 }
    }
}

} // verus!
