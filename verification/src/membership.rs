//! The executor's side of its life in the fleet: register once, then report
//! with every heartbeat, and register again when the coordinator no longer
//! knows it.
use crate::registry::{
    registered, spec_heartbeat_result, spec_register, spec_sweep, ExecutorInfo, ExecutorStatus,
    HealthState, HeartbeatAck, MonitorConfig, RegisterResponse, RegistryError, RegistryModel,
};
use crate::scheduler::{Phase, SchedulerView, TickScheduler};
use vstd::prelude::*;

verus! {

/// Whether the executor believes the coordinator holds a record of it.
#[derive(Clone, Copy, Debug, PartialEq, Eq, Structural)]
pub enum Membership {
    Unregistered,
    Registered,
}

/// The call the executor makes next.
#[derive(Clone, Copy, Debug, PartialEq, Eq, Structural)]
pub enum CoordinatorCall {
    Register,
    Heartbeat,
}

/// The call that is due: a registration until one has succeeded, a heartbeat
/// from then on.
pub open spec fn spec_next_call(m: Membership) -> CoordinatorCall {
    match m {
        Membership::Unregistered => CoordinatorCall::Register,
        Membership::Registered => CoordinatorCall::Heartbeat,
    }
}

/// Membership after the answer to a registration.
pub open spec fn spec_after_register(m: Membership, response: RegisterResponse) -> Membership {
    if response.success {
        Membership::Registered
    } else {
        m
    }
}

/// Membership after the answer to a heartbeat: lost when the coordinator does
/// not know the executor.
pub open spec fn spec_after_heartbeat(
    m: Membership,
    answer: Result<HeartbeatAck, RegistryError>,
) -> Membership {
    match answer {
        Ok(_) => m,
        Err(RegistryError::UnknownExecutor) => Membership::Unregistered,
    }
}

/// How many instances the host reports as active: its one instance while the
/// scheduler runs and the last cycle gave a snapshot of its own, none
/// otherwise.
pub open spec fn spec_active_instances(v: SchedulerView) -> i32 {
    if v.phase == Phase::Running && !v.degraded {
        1
    } else {
        0
    }
}

/// An evicted executor comes back by registering and in no other way: its
/// heartbeat is turned down, which sends it back to registering, and the
/// registration gives it a fresh, active record.
pub proof fn lemma_eviction_leads_to_registration(
    m: RegistryModel,
    info: ExecutorInfo,
    status: ExecutorStatus,
    swept_at: u64,
    cfg: MonitorConfig,
    later: u64,
)
    requires
        info.id@ == status.id@,
        m.dom().contains(info.id@),
        crate::registry::is_evicted(m[info.id@], swept_at, cfg),
    ensures
        spec_next_call(
            spec_after_heartbeat(
                Membership::Registered,
                spec_heartbeat_result(spec_sweep(m, swept_at, cfg), status),
            ),
        ) == CoordinatorCall::Register,
        spec_register(spec_sweep(m, swept_at, cfg), info, later)[info.id@] == registered(
            info,
            later,
        ),
        spec_register(spec_sweep(m, swept_at, cfg), info, later)[info.id@].health
            == HealthState::Active,
{
}

impl Membership {
    /// An executor that has not registered yet.
    pub fn new() -> (r: Membership)
        ensures
            r == Membership::Unregistered,
    {
        Membership::Unregistered
    }

    /// The call to make next.
    pub fn next_call(&self) -> (r: CoordinatorCall)
        ensures
            r == spec_next_call(*self),
    {
        match self {
            Membership::Unregistered => CoordinatorCall::Register,
            Membership::Registered => CoordinatorCall::Heartbeat,
        }
    }

    /// Takes the coordinator's answer to a registration.
    pub fn on_registered(&mut self, response: RegisterResponse)
        ensures
            *final(self) == spec_after_register(*old(self), response),
    {
        if response.success {
            *self = Membership::Registered;
        }
    }

    /// Takes the coordinator's answer to a heartbeat.
    pub fn on_heartbeat(&mut self, answer: Result<HeartbeatAck, RegistryError>)
        ensures
            *final(self) == spec_after_heartbeat(*old(self), answer),
    {
        match answer {
            Ok(_) => {},
            Err(RegistryError::UnknownExecutor) => {
                *self = Membership::Unregistered;
            },
        }
    }
}

/// The status for the next heartbeat of the executor `id`: the count of
/// active instances tells the coordinator whether the host is degraded.
pub fn status_report(id: String, scheduler: &TickScheduler, cpu_usage_bits: u32) -> (r:
    ExecutorStatus)
    ensures
        r.id@ == id@,
        r.cpu_usage_bits == cpu_usage_bits,
        r.active_instances == spec_active_instances(scheduler@),
{
    let running = match scheduler.phase() {
        Phase::Running => true,
        _ => false,
    };
    let active: i32 = if running && !scheduler.is_degraded() {
        1
    } else {
        0
    };
    ExecutorStatus { id, active_instances: active, cpu_usage_bits }
}

} // verus!
