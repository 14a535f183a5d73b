//! Local robot gateway state machine. Networking transports plug in above this
//! safety-preserving core: losing the central connection never removes local
//! emergency control, and no new operation starts while stopped or offline.
use vstd::prelude::*;
use crate::domain::SafetyState;
use crate::text::{owned, texts};

verus! {

#[derive(Clone, Copy, Debug, PartialEq, Eq, Structural)]
pub enum GatewayState {
    Discovered,
    Connecting,
    Authenticating,
    Syncing,
    Ready,
    Degraded,
    Offline,
}

#[derive(Clone, Copy, Debug, PartialEq, Eq, Structural)]
pub enum GatewayError {
    NotReady(GatewayState),
    Offline,
    SafetyStop,
}

#[derive(Clone, Debug)]
pub struct Gateway {
    pub state: GatewayState,
    pub safety: SafetyState,
    telemetry_queue: Vec<String>,
    pub local_emergency_control: bool,
}

/// The plain values of a gateway: connection state, safety state, queued telemetry
/// (oldest first) and whether local emergency control is kept.
pub struct GatewayView {
    pub state: GatewayState,
    pub safety: SafetyState,
    pub queued: Seq<Seq<char>>,
    pub local_emergency_control: bool,
}

impl View for Gateway {
    type V = GatewayView;

    closed spec fn view(&self) -> GatewayView {
        GatewayView {
            state: self.state,
            safety: self.safety,
            queued: texts(self.telemetry_queue@),
            local_emergency_control: self.local_emergency_control,
        }
    }
}

/// The state that follows `s` in the connection sequence; later states stay put.
pub open spec fn next_state(s: GatewayState) -> GatewayState {
    match s {
        GatewayState::Discovered => GatewayState::Connecting,
        GatewayState::Connecting => GatewayState::Authenticating,
        GatewayState::Authenticating => GatewayState::Syncing,
        GatewayState::Syncing => GatewayState::Ready,
        other => other,
    }
}

/// Whether a new operation is accepted, and why not.
pub open spec fn admission(safety: SafetyState, state: GatewayState) -> Result<(), GatewayError> {
    if safety == SafetyState::EmergencyStop {
        Err(GatewayError::SafetyStop)
    } else if state == GatewayState::Offline {
        Err(GatewayError::Offline)
    } else if state == GatewayState::Ready {
        Ok(())
    } else {
        Err(GatewayError::NotReady(state))
    }
}

impl Default for Gateway {
    fn default() -> (g: Self)
        ensures
            g@.state == GatewayState::Discovered,
            g@.safety == SafetyState::Safe,
            g@.queued.len() == 0,
            g@.local_emergency_control,
    {
        Gateway {
            state: GatewayState::Discovered,
            safety: SafetyState::Safe,
            telemetry_queue: Vec::new(),
            local_emergency_control: true,
        }
    }
}

impl Gateway {
    /// Moves one step along the connection sequence.
    pub fn advance(&mut self)
        ensures
            final(self)@.state == next_state(old(self)@.state),
            final(self)@.safety == old(self)@.safety,
            final(self)@.queued == old(self)@.queued,
            final(self)@.local_emergency_control == old(self)@.local_emergency_control,
    {
        self.state = match self.state {
            GatewayState::Discovered => GatewayState::Connecting,
            GatewayState::Connecting => GatewayState::Authenticating,
            GatewayState::Authenticating => GatewayState::Syncing,
            GatewayState::Syncing => GatewayState::Ready,
            state => state,
        };
    }

    /// Whether a new operation may start.
    pub fn accept_new_operation(&self) -> (r: Result<(), GatewayError>)
        ensures
            r == admission(self@.safety, self@.state),
    {
        if self.safety == SafetyState::EmergencyStop {
            Err(GatewayError::SafetyStop)
        } else if self.state == GatewayState::Offline {
            Err(GatewayError::Offline)
        } else if self.state == GatewayState::Ready {
            Ok(())
        } else {
            Err(GatewayError::NotReady(self.state))
        }
    }

    /// Queues a telemetry event.
    pub fn queue_telemetry(&mut self, event: &str)
        ensures
            final(self)@.queued == old(self)@.queued.push(event@),
            final(self)@.state == old(self)@.state,
            final(self)@.safety == old(self)@.safety,
            final(self)@.local_emergency_control == old(self)@.local_emergency_control,
    {
        self.telemetry_queue.push(owned(event));
        proof {
            assert(self@.queued =~= old(self)@.queued.push(event@));
        }
    }

    /// Hands out every queued event, oldest first, and empties the queue.
    pub fn drain_telemetry(&mut self) -> (events: Vec<String>)
        ensures
            texts(events@) == old(self)@.queued,
            final(self)@.queued.len() == 0,
            final(self)@.state == old(self)@.state,
            final(self)@.safety == old(self)@.safety,
            final(self)@.local_emergency_control == old(self)@.local_emergency_control,
    {
        let mut events: Vec<String> = Vec::new();
        std::mem::swap(&mut events, &mut self.telemetry_queue);
        proof {
            assert(self@.queued =~= Seq::<Seq<char>>::empty());
        }
        events
    }

    /// Latches the emergency stop and reports it.
    pub fn emergency_stop(&mut self)
        ensures
            final(self)@.safety == SafetyState::EmergencyStop,
            final(self)@.state == old(self)@.state,
            final(self)@.queued == old(self)@.queued.push("safety.triggered"@),
            final(self)@.local_emergency_control == old(self)@.local_emergency_control,
    {
        self.safety = SafetyState::EmergencyStop;
        self.queue_telemetry("safety.triggered");
    }

    /// Goes offline when the central connection drops; local safety state is kept.
    pub fn central_connection_lost(&mut self)
        ensures
            final(self)@.state == GatewayState::Offline,
            final(self)@.safety == old(self)@.safety,
            final(self)@.queued == old(self)@.queued.push("gateway.offline: unsafe new operations denied"@),
            final(self)@.local_emergency_control == old(self)@.local_emergency_control,
    {
        self.state = GatewayState::Offline;
        self.queue_telemetry("gateway.offline: unsafe new operations denied");
    }
}

/// While the emergency stop is latched, no sequence of connection steps or
/// connection losses lets a new operation start.
pub proof fn law_emergency_stop_blocks_operations(state: GatewayState)
    ensures
        admission(SafetyState::EmergencyStop, state) == Err::<(), GatewayError>(GatewayError::SafetyStop),
        admission(SafetyState::EmergencyStop, next_state(state)) == Err::<(), GatewayError>(GatewayError::SafetyStop),
{
}

/// An offline gateway accepts no new operation, whatever its safety state, and
/// connection steps do not leave the offline state.
pub proof fn law_offline_denies_operations(safety: SafetyState)
    ensures
        admission(safety, GatewayState::Offline) is Err,
        next_state(GatewayState::Offline) == GatewayState::Offline,
{
}

/// Four connection steps take a newly discovered gateway to `Ready`.
pub proof fn law_four_steps_reach_ready()
    ensures
        next_state(next_state(next_state(next_state(GatewayState::Discovered)))) == GatewayState::Ready,
{
}

} // verus!
