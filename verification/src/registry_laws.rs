//! What holds of the registry over whole histories of calls, proved from the
//! model that the registry's methods are verified against.
use crate::registry::{
    is_evicted, registered, silence, spec_evictions, spec_heartbeat, spec_heartbeat_result,
    spec_register, spec_sweep, ExecutorInfo, ExecutorStatus, HealthState, HeartbeatAck,
    MonitorConfig, RegistryError, RegistryModel,
};
use vstd::prelude::*;

verus! {

/// One call on the registry, as a value.
pub ghost enum RegistryOp {
    Register { info: ExecutorInfo, now: u64 },
    Heartbeat { status: ExecutorStatus, now: u64 },
    Sweep { now: u64, cfg: MonitorConfig },
}

/// The registry after one call.
pub open spec fn spec_apply(m: RegistryModel, op: RegistryOp) -> RegistryModel {
    match op {
        RegistryOp::Register { info, now } => spec_register(m, info, now),
        RegistryOp::Heartbeat { status, now } => spec_heartbeat(m, status, now),
        RegistryOp::Sweep { now, cfg } => spec_sweep(m, now, cfg),
    }
}

/// The registry after a history of calls, oldest first.
pub open spec fn spec_run(m: RegistryModel, ops: Seq<RegistryOp>) -> RegistryModel
    decreases ops.len(),
{
    if ops.len() == 0 {
        m
    } else {
        spec_apply(spec_run(m, ops.drop_last()), ops.last())
    }
}

/// Whether the call registers `id`.
pub open spec fn registers(op: RegistryOp, id: Seq<char>) -> bool {
    op matches RegistryOp::Register { info, .. } && info.id@ == id
}

/// The registry after a run of registrations, oldest first.
pub open spec fn register_all(m: RegistryModel, regs: Seq<(ExecutorInfo, u64)>) -> RegistryModel
    decreases regs.len(),
{
    if regs.len() == 0 {
        m
    } else {
        spec_register(register_all(m, regs.drop_last()), regs.last().0, regs.last().1)
    }
}

/// Last write wins: after any run of registrations under one identity the
/// registry is what the last of them alone would have made it. Only that
/// registration's record stands under the identity, and no other identity is
/// touched.
pub proof fn lemma_last_registration_wins(
    m: RegistryModel,
    regs: Seq<(ExecutorInfo, u64)>,
    id: Seq<char>,
)
    requires
        regs.len() > 0,
        forall|i: int| 0 <= i < regs.len() ==> (#[trigger] regs[i]).0.id@ == id,
    ensures
        register_all(m, regs) == spec_register(m, regs.last().0, regs.last().1),
        register_all(m, regs)[id] == registered(regs.last().0, regs.last().1),
        forall|other: Seq<char>|
            other != id ==> (register_all(m, regs).dom().contains(other) <==> m.dom().contains(
                other,
            )),
        forall|other: Seq<char>|
            other != id && m.dom().contains(other) ==> register_all(m, regs)[other] == m[other],
    decreases regs.len(),
{
    let earlier = regs.drop_last();
    if earlier.len() > 0 {
        assert forall|i: int| 0 <= i < earlier.len() implies (#[trigger] earlier[i]).0.id@
            == id by {
            assert(earlier[i] == regs[i]);
        }
        lemma_last_registration_wins(m, earlier, id);
        assert(earlier.last().0.id@ == id);
    } else {
        assert(register_all(m, earlier) == m);
    }
    assert(regs.last().0.id@ == id);
    assert(register_all(m, regs) =~= spec_register(m, regs.last().0, regs.last().1));
}

/// Only a registration makes an identity known: a call that does not register
/// `id` cannot bring it into the registry.
pub proof fn lemma_apply_keeps_unknown(m: RegistryModel, op: RegistryOp, id: Seq<char>)
    requires
        !m.dom().contains(id),
        !registers(op, id),
    ensures
        !spec_apply(m, op).dom().contains(id),
{
}

/// A heartbeat for an identity that no earlier call registered is answered
/// with `UnknownExecutor`, whatever else the registry has been through, and
/// leaves the registry as it is.
pub proof fn lemma_heartbeat_before_registration(
    ops: Seq<RegistryOp>,
    status: ExecutorStatus,
    now: u64,
)
    requires
        forall|i: int| 0 <= i < ops.len() ==> !registers(#[trigger] ops[i], status.id@),
    ensures
        !spec_run(Map::empty(), ops).dom().contains(status.id@),
        spec_heartbeat_result(spec_run(Map::empty(), ops), status) == Err::<
            HeartbeatAck,
            RegistryError,
        >(RegistryError::UnknownExecutor),
        spec_heartbeat(spec_run(Map::empty(), ops), status, now) == spec_run(Map::empty(), ops),
    decreases ops.len(),
{
    if ops.len() > 0 {
        let earlier = ops.drop_last();
        assert forall|i: int| 0 <= i < earlier.len() implies !registers(
            #[trigger] earlier[i],
            status.id@,
        ) by {
            assert(earlier[i] == ops[i]);
        }
        lemma_heartbeat_before_registration(earlier, status, now);
        lemma_apply_keeps_unknown(spec_run(Map::empty(), earlier), ops.last(), status.id@);
    }
}

/// What a sweep makes of one registered executor, by how long it has been
/// silent: within the stale threshold its record is untouched; beyond it and
/// within the eviction threshold it is `Stale`; beyond the eviction threshold
/// it is gone from the registry and handed out as `Evicted`.
pub proof fn lemma_silence_transitions(
    m: RegistryModel,
    id: Seq<char>,
    now: u64,
    cfg: MonitorConfig,
)
    requires
        m.dom().contains(id),
        cfg.stale_after() < cfg.evict_after(),
    ensures
        silence(m[id], now) <= cfg.stale_after() ==> spec_sweep(m, now, cfg).dom().contains(id)
            && spec_sweep(m, now, cfg)[id] == m[id],
        cfg.stale_after() < silence(m[id], now) <= cfg.evict_after() ==> spec_sweep(
            m,
            now,
            cfg,
        ).dom().contains(id) && spec_sweep(m, now, cfg)[id].health == HealthState::Stale,
        silence(m[id], now) > cfg.evict_after() ==> !spec_sweep(m, now, cfg).dom().contains(id)
            && spec_evictions(m, now, cfg).dom().contains(id) && spec_evictions(
            m,
            now,
            cfg,
        )[id].health == HealthState::Evicted,
{
}

/// A heartbeat for a registered executor, `Active` or `Stale`, makes it
/// `Active` with the heartbeat's time as its liveness timestamp, so that a
/// sweep at that same time leaves it alone.
pub proof fn lemma_heartbeat_revives(
    m: RegistryModel,
    status: ExecutorStatus,
    now: u64,
    cfg: MonitorConfig,
)
    requires
        m.dom().contains(status.id@),
    ensures
        spec_heartbeat_result(m, status) is Ok,
        spec_heartbeat(m, status, now).dom() == m.dom(),
        spec_heartbeat(m, status, now)[status.id@].health == HealthState::Active,
        spec_heartbeat(m, status, now)[status.id@].last_heartbeat == now,
        spec_sweep(spec_heartbeat(m, status, now), now, cfg)[status.id@] == spec_heartbeat(
            m,
            status,
            now,
        )[status.id@],
        spec_sweep(spec_heartbeat(m, status, now), now, cfg).dom().contains(status.id@),
{
    assert(spec_heartbeat(m, status, now).dom() =~= m.dom());
}

/// Eviction is final: once a sweep has dropped an executor, a heartbeat for it
/// is answered with `UnknownExecutor` and brings nothing back. Only a new
/// registration does.
pub proof fn lemma_eviction_is_final(
    m: RegistryModel,
    status: ExecutorStatus,
    swept_at: u64,
    cfg: MonitorConfig,
    later: u64,
)
    requires
        m.dom().contains(status.id@),
        is_evicted(m[status.id@], swept_at, cfg),
    ensures
        spec_heartbeat_result(spec_sweep(m, swept_at, cfg), status) == Err::<
            HeartbeatAck,
            RegistryError,
        >(RegistryError::UnknownExecutor),
        spec_heartbeat(spec_sweep(m, swept_at, cfg), status, later) == spec_sweep(
            m,
            swept_at,
            cfg,
        ),
{
}

} // verus!
