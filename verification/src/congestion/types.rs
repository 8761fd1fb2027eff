use vstd::prelude::*;

verus! {

/// A receive window advertised by a tenant; zero means suspended.
#[derive(Debug, Clone, Copy, PartialEq, Eq, Structural)]
pub struct WindowSize(u16);

impl WindowSize {
    /// The zero window of a suspended tenant.
    pub fn suspended() -> (w: Self)
        ensures
            w.size() == 0,
    {
        WindowSize(0)
    }

    /// The smallest open window.
    pub fn minimum() -> (w: Self)
        ensures
            w.size() == 1,
    {
        WindowSize(1)
    }

    /// The largest window.
    pub fn maximum() -> (w: Self)
        ensures
            w.size() == 65535,
    {
        WindowSize(65535)
    }

    /// The advertised size.
    pub closed spec fn size(self) -> u16 {
        self.0
    }

    pub fn new(value: u16) -> (w: Self)
        ensures
            w.size() == value,
    {
        WindowSize(value)
    }

    pub fn is_zero(&self) -> (b: bool)
        ensures
            b <==> self.size() == 0,
    {
        self.0 == 0
    }

    pub fn value(&self) -> (v: u16)
        ensures
            v == self.size(),
    {
        self.0
    }
}

impl Default for WindowSize {
    fn default() -> (w: Self)
        ensures
            w.size() == 65535,
    {
        WindowSize(65535)
    }
}

pub type TenantId = String;

#[derive(Debug, Clone)]
pub enum CongestionEvent {
    WindowForcedOpen { tenant_id: TenantId, new_window: WindowSize },
    ZeroWindowHeartbeat { tenant_id: TenantId, consecutive_count: u32 },
    ProbeSent { tenant_id: TenantId, backoff_ms: u64 },
    ProbeAckReceived { tenant_id: TenantId, window: WindowSize },
}

#[derive(Debug, Clone)]
pub struct CongestionMetrics {
    pub zero_window_stalls_prevented: u64,
    pub probe_backoff_interval_ms: u64,
    pub total_zero_window_ack_suppressed: u64,
}

impl Default for CongestionMetrics {
    fn default() -> (m: Self)
        ensures
            m.zero_window_stalls_prevented == 0,
            m.probe_backoff_interval_ms == 0,
            m.total_zero_window_ack_suppressed == 0,
    {
        CongestionMetrics {
            zero_window_stalls_prevented: 0,
            probe_backoff_interval_ms: 0,
            total_zero_window_ack_suppressed: 0,
        }
    }
}

/// The first probe interval of a stalled tenant.
pub const PROBE_BASE_INTERVAL_MS: u64 = 5_000;

/// The longest probe interval.
pub const PROBE_MAX_INTERVAL_MS: u64 = 30_000;

pub const BACKOFF_MULTIPLIER: u32 = 2;

/// Consecutive zero-window heartbeats after which the window is forced open.
pub const MAX_ZERO_WINDOW_COUNT: u32 = 6;

/// Consecutive zero-window ACKs that are let through before suppression.
pub const ACK_SUPPRESSION_THRESHOLD: u32 = 3;

} // verus!
