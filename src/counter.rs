use vstd::prelude::*;

verus! {

/// Raw counter value of a connection that is looking for a partner.
pub const SEARCHING_VALUE: u8 = 0x00;

/// Raw counter value of a connection whose negotiation failed.
pub const FAILED_VALUE: u8 = 0xFE;

/// Raw counter value of a connection that attempts to take over its target.
pub const TAKEOVER_VALUE: u8 = 0xFF;

/// Logical state of a connection endpoint, derived from its counter byte.
#[derive(Debug, Clone, Copy, PartialEq, Eq, Structural)]
pub enum NodeState {
    Searching,
    Connecting,
    AttemptingTakeover,
    Failed,
}

/// The state that a raw counter byte stands for under a time-out threshold.
///
/// Any value from the threshold on, except the takeover code, counts as failed:
/// a negotiation that lasted too long times out without an explicit transition.
pub open spec fn state_of(value: u8, threshold: u8) -> NodeState {
    if value >= threshold && value != TAKEOVER_VALUE {
        NodeState::Failed
    } else if value == TAKEOVER_VALUE {
        NodeState::AttemptingTakeover
    } else if value == FAILED_VALUE {
        NodeState::Failed
    } else if value == SEARCHING_VALUE {
        NodeState::Searching
    } else {
        NodeState::Connecting
    }
}

/// Time-out threshold as the counter byte sees it: the configured count, truncated to a byte.
pub open spec fn threshold_byte(max_connection_time: usize) -> u8 {
    (max_connection_time % 256) as u8
}

pub fn threshold_from(max_connection_time: usize) -> (r: u8)
    ensures
        r == threshold_byte(max_connection_time),
{
    (max_connection_time % 256) as u8
}

/// Decodes a raw counter byte; the threshold test comes before the exact codes.
pub fn decode_state(value: u8, threshold: u8) -> (r: NodeState)
    ensures
        r == state_of(value, threshold),
{
    if value >= threshold && value != TAKEOVER_VALUE {
        return NodeState::Failed;
    }
    match value {
        TAKEOVER_VALUE => NodeState::AttemptingTakeover,
        FAILED_VALUE => NodeState::Failed,
        SEARCHING_VALUE => NodeState::Searching,
        _ => NodeState::Connecting,
    }
}

/// Connection-time counter of an interconnection endpoint.
#[derive(Debug, Clone, Copy, PartialEq, Eq, Structural)]
pub struct CounterInterConnection(pub u8);

/// Connection-time counter of an intraconnection slot.
#[derive(Debug, Clone, Copy, PartialEq, Eq, Structural)]
pub struct CounterIntraConnection(pub u8);

impl CounterInterConnection {
    pub fn new() -> (r: Self)
        ensures
            r.0 == SEARCHING_VALUE,
    {
        CounterInterConnection(SEARCHING_VALUE)
    }

    pub fn get_value(&self) -> (r: u8)
        ensures
            r == self.0,
    {
        self.0
    }

    pub fn get_state(&self, g_settings: &crate::settings::GuardianSettings) -> (r: NodeState)
        ensures
            r == state_of(self.0, threshold_byte(g_settings.interconnection_max_connection_time)),
    {
        decode_state(self.0, threshold_from(g_settings.interconnection_max_connection_time))
    }

    /// One more tick of negotiation. The counter must be cleared before it
    /// would reach the reserved takeover code.
    pub fn inc(&mut self)
        requires
            old(self).0 < FAILED_VALUE,
        ensures
            final(self).0 == old(self).0 + 1,
    {
        self.0 = self.0 + 1;
    }

    pub fn saturate(&mut self)
        ensures
            final(self).0 == TAKEOVER_VALUE,
    {
        self.0 = TAKEOVER_VALUE;
    }

    pub fn failed(&mut self)
        ensures
            final(self).0 == FAILED_VALUE,
    {
        self.0 = FAILED_VALUE;
    }

    pub fn reset(&mut self)
        ensures
            final(self).0 == SEARCHING_VALUE,
    {
        self.0 = SEARCHING_VALUE;
    }
}

impl CounterIntraConnection {
    pub fn new() -> (r: Self)
        ensures
            r.0 == SEARCHING_VALUE,
    {
        CounterIntraConnection(SEARCHING_VALUE)
    }

    pub fn get_value(&self) -> (r: u8)
        ensures
            r == self.0,
    {
        self.0
    }

    pub fn get_state(&self, g_settings: &crate::settings::GuardianSettings) -> (r: NodeState)
        ensures
            r == state_of(self.0, threshold_byte(g_settings.intraconnection_max_connection_time)),
    {
        decode_state(self.0, threshold_from(g_settings.intraconnection_max_connection_time))
    }

    /// One more tick of negotiation. The counter must be cleared before it
    /// would reach the reserved takeover code.
    pub fn inc(&mut self)
        requires
            old(self).0 < FAILED_VALUE,
        ensures
            final(self).0 == old(self).0 + 1,
    {
        self.0 = self.0 + 1;
    }

    pub fn saturate(&mut self)
        ensures
            final(self).0 == TAKEOVER_VALUE,
    {
        self.0 = TAKEOVER_VALUE;
    }

    pub fn reset(&mut self)
        ensures
            final(self).0 == SEARCHING_VALUE,
    {
        self.0 = SEARCHING_VALUE;
    }
}

/// How a counter byte reads under a threshold: zero searches (when the
/// threshold is above zero), values below the threshold connect, the takeover
/// code always reads as a takeover whatever came before, and every other value
/// from the threshold on, or the explicit failure code, reads as failed.
pub proof fn lemma_counter_states(value: u8, th: u8)
    ensures
        value == TAKEOVER_VALUE ==> state_of(value, th) == NodeState::AttemptingTakeover,
        value == FAILED_VALUE ==> state_of(value, th) == NodeState::Failed,
        value == SEARCHING_VALUE && th > 0 ==> state_of(value, th) == NodeState::Searching,
        0 < value < th && value < FAILED_VALUE ==> state_of(value, th) == NodeState::Connecting,
        value >= th && value != TAKEOVER_VALUE ==> state_of(value, th) == NodeState::Failed,
{
}

} // verus!
