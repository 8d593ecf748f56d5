//! The fleet registry: which executors exist, what they declared, and how
//! lately each was heard from.
//!
//! The registry is modelled as a finite map from an executor's identity to its
//! record. Every operation is described by a spec function on that map, and the
//! executable methods are proved to compute exactly that function.
use vstd::prelude::*;

verus! {

/// Liveness of an executor as the registry sees it.
#[derive(Clone, Copy, Debug, PartialEq, Eq, Structural)]
pub enum HealthState {
    /// Heard from within the stale threshold.
    Active,
    /// Silent for longer than the stale threshold, still registered.
    Stale,
    /// Silent for longer than the eviction threshold: no longer registered.
    Evicted,
}

/// What an executor declares when it registers.
#[derive(Debug)]
pub struct ExecutorInfo {
    pub id: String,
    pub address: String,
    pub max_memory_mb: i32,
}

/// What an executor reports with each heartbeat. The CPU utilisation is kept
/// as the bit pattern of the single-precision number that travels on the wire;
/// the registry stores it and never interprets it.
#[derive(Debug)]
pub struct ExecutorStatus {
    pub id: String,
    pub active_instances: i32,
    pub cpu_usage_bits: u32,
}

/// Answer to a registration.
#[derive(Clone, Copy, Debug, PartialEq, Eq, Structural)]
pub struct RegisterResponse {
    pub success: bool,
}

/// Answer to an accepted heartbeat.
#[derive(Clone, Copy, Debug, PartialEq, Eq, Structural)]
pub struct HeartbeatAck {}

/// Why the registry turned a call down.
#[derive(Clone, Copy, Debug, PartialEq, Eq, Structural)]
pub enum RegistryError {
    /// The identity has no record: it never registered, or it was evicted.
    /// The caller has to register again.
    UnknownExecutor,
}

/// Heartbeats that an executor may miss before it counts as stale.
pub const MISSED_BEATS_UNTIL_STALE: u64 = 3;

/// How many times the stale threshold an executor may stay silent before it is
/// evicted.
pub const STALE_SPANS_UNTIL_EVICTED: u64 = 3;

/// The two thresholds of the heartbeat monitor, in the unit of the clock that
/// the caller passes in. Fields are private so that `stale_after < evict_after`
/// holds of every value.
#[derive(Clone, Copy, Debug)]
pub struct MonitorConfig {
    stale_after: u64,
    evict_after: u64,
}

/// One executor as the registry holds it.
#[derive(Debug)]
pub struct ExecutorRecord {
    pub id: String,
    pub address: String,
    pub max_memory_mb: i32,
    pub active_instances: i32,
    pub cpu_usage_bits: u32,
    pub last_heartbeat: u64,
    pub health: HealthState,
}

/// The mathematical value of an `ExecutorRecord`.
pub ghost struct RecordView {
    pub id: Seq<char>,
    pub address: Seq<char>,
    pub max_memory_mb: i32,
    pub active_instances: i32,
    pub cpu_usage_bits: u32,
    pub last_heartbeat: u64,
    pub health: HealthState,
}

/// The registry's state: identity to record.
pub type RegistryModel = Map<Seq<char>, RecordView>;

impl View for ExecutorRecord {
    type V = RecordView;

    open spec fn view(&self) -> RecordView {
        RecordView {
            id: self.id@,
            address: self.address@,
            max_memory_mb: self.max_memory_mb,
            active_instances: self.active_instances,
            cpu_usage_bits: self.cpu_usage_bits,
            last_heartbeat: self.last_heartbeat,
            health: self.health,
        }
    }
}

impl Clone for ExecutorRecord {
    fn clone(&self) -> (r: Self)
        ensures
            r@ == self@,
    {
        ExecutorRecord {
            id: self.id.clone(),
            address: self.address.clone(),
            max_memory_mb: self.max_memory_mb,
            active_instances: self.active_instances,
            cpu_usage_bits: self.cpu_usage_bits,
            last_heartbeat: self.last_heartbeat,
            health: self.health,
        }
    }
}

// ---------------------------------------------------------------------------
// The model: what each operation does to the map.
// ---------------------------------------------------------------------------

/// The record that a registration at time `now` creates: nothing running yet,
/// no load, heard from just now, active.
pub open spec fn registered(info: ExecutorInfo, now: u64) -> RecordView {
    RecordView {
        id: info.id@,
        address: info.address@,
        max_memory_mb: info.max_memory_mb,
        active_instances: 0,
        cpu_usage_bits: 0,
        last_heartbeat: now,
        health: HealthState::Active,
    }
}

/// Registration writes the whole record, whatever stood under that identity.
pub open spec fn spec_register(m: RegistryModel, info: ExecutorInfo, now: u64) -> RegistryModel {
    m.insert(info.id@, registered(info, now))
}

/// A record after a heartbeat at time `now`: the reported activity, the new
/// liveness timestamp, active again. Identity, address and memory ceiling stay.
pub open spec fn refreshed(r: RecordView, status: ExecutorStatus, now: u64) -> RecordView {
    RecordView {
        active_instances: status.active_instances,
        cpu_usage_bits: status.cpu_usage_bits,
        last_heartbeat: now,
        health: HealthState::Active,
        ..r
    }
}

/// A heartbeat touches the record of its identity if there is one, and
/// nothing otherwise.
pub open spec fn spec_heartbeat(m: RegistryModel, status: ExecutorStatus, now: u64) -> RegistryModel {
    if m.dom().contains(status.id@) {
        m.insert(status.id@, refreshed(m[status.id@], status, now))
    } else {
        m
    }
}

/// What a heartbeat is answered with: an acknowledgement for a registered
/// identity, `UnknownExecutor` for any other.
pub open spec fn spec_heartbeat_result(m: RegistryModel, status: ExecutorStatus) -> Result<
    HeartbeatAck,
    RegistryError,
> {
    if m.dom().contains(status.id@) {
        Ok(HeartbeatAck {  })
    } else {
        Err(RegistryError::UnknownExecutor)
    }
}

/// How long a record has been silent at time `now`. A clock reading that lies
/// before the record's timestamp counts as no silence.
pub open spec fn silence(r: RecordView, now: u64) -> int {
    if now >= r.last_heartbeat {
        now - r.last_heartbeat
    } else {
        0
    }
}

/// Whether a sweep at time `now` evicts the record.
pub open spec fn is_evicted(r: RecordView, now: u64, cfg: MonitorConfig) -> bool {
    silence(r, now) > cfg.evict_after()
}

/// Whether a sweep at time `now` finds the record silent beyond the stale
/// threshold.
pub open spec fn is_stale(r: RecordView, now: u64, cfg: MonitorConfig) -> bool {
    silence(r, now) > cfg.stale_after()
}

/// A record that survives a sweep: demoted to `Stale` if it has been silent
/// for longer than the stale threshold, untouched otherwise.
pub open spec fn swept(r: RecordView, now: u64, cfg: MonitorConfig) -> RecordView {
    if is_stale(r, now, cfg) {
        RecordView { health: HealthState::Stale, ..r }
    } else {
        r
    }
}

/// A record as the sweep hands it out when it evicts it.
pub open spec fn evicted(r: RecordView) -> RecordView {
    RecordView { health: HealthState::Evicted, ..r }
}

/// A sweep drops every record that is silent beyond the eviction threshold
/// and demotes those of the rest that are silent beyond the stale threshold.
pub open spec fn spec_sweep(m: RegistryModel, now: u64, cfg: MonitorConfig) -> RegistryModel {
    Map::new(
        |id: Seq<char>| m.dom().contains(id) && !is_evicted(m[id], now, cfg),
        |id: Seq<char>| swept(m[id], now, cfg),
    )
}

/// What a sweep hands out: the records it drops, each marked `Evicted`.
pub open spec fn spec_evictions(m: RegistryModel, now: u64, cfg: MonitorConfig) -> RegistryModel {
    Map::new(
        |id: Seq<char>| m.dom().contains(id) && is_evicted(m[id], now, cfg),
        |id: Seq<char>| evicted(m[id]),
    )
}

impl MonitorConfig {
    /// The silence beyond which an executor is stale.
    pub closed spec fn stale_after(self) -> u64 {
        self.stale_after
    }

    /// The silence beyond which an executor is evicted.
    pub closed spec fn evict_after(self) -> u64 {
        self.evict_after
    }

    #[verifier::type_invariant]
    spec fn ordered(self) -> bool {
        self.stale_after < self.evict_after
    }

    /// The configuration with these thresholds, if the eviction threshold is
    /// the longer of the two.
    pub fn new(stale_after: u64, evict_after: u64) -> (r: Option<MonitorConfig>)
        ensures
            r is Some <==> stale_after < evict_after,
            r is Some ==> r->0.stale_after() == stale_after && r->0.evict_after() == evict_after,
    {
        if stale_after < evict_after {
            Some(MonitorConfig { stale_after, evict_after })
        } else {
            None
        }
    }

    /// The thresholds that go with executors reporting every
    /// `heartbeat_interval`: stale after `MISSED_BEATS_UNTIL_STALE` missed
    /// heartbeats, evicted after `STALE_SPANS_UNTIL_EVICTED` times as long.
    /// None for an interval of zero, or one so long that the thresholds do
    /// not fit the clock.
    pub fn for_heartbeat_interval(heartbeat_interval: u64) -> (r: Option<MonitorConfig>)
        ensures
            r is Some <==> 0 < heartbeat_interval && heartbeat_interval
                * MISSED_BEATS_UNTIL_STALE * STALE_SPANS_UNTIL_EVICTED <= u64::MAX,
            r is Some ==> r->0.stale_after() == heartbeat_interval * MISSED_BEATS_UNTIL_STALE
                && r->0.evict_after() == heartbeat_interval * MISSED_BEATS_UNTIL_STALE
                * STALE_SPANS_UNTIL_EVICTED,
    {
        let factor: u64 = MISSED_BEATS_UNTIL_STALE * STALE_SPANS_UNTIL_EVICTED;
        assert(factor == 9);
        assert(heartbeat_interval * MISSED_BEATS_UNTIL_STALE * STALE_SPANS_UNTIL_EVICTED
            == heartbeat_interval * 9);
        if heartbeat_interval == 0 || heartbeat_interval > u64::MAX / factor {
            return None;
        }
        let stale_after = heartbeat_interval * MISSED_BEATS_UNTIL_STALE;
        let evict_after = stale_after * STALE_SPANS_UNTIL_EVICTED;
        Some(MonitorConfig { stale_after, evict_after })
    }

    /// The silence beyond which an executor is stale.
    pub fn stale_threshold(&self) -> (r: u64)
        ensures
            r == self.stale_after(),
            r < self.evict_after(),
    {
        proof {
            use_type_invariant(self);
        }
        self.stale_after
    }

    /// The silence beyond which an executor is evicted.
    pub fn eviction_threshold(&self) -> (r: u64)
        ensures
            r == self.evict_after(),
            r > self.stale_after(),
    {
        proof {
            use_type_invariant(self);
        }
        self.evict_after
    }
}

// ---------------------------------------------------------------------------
// The representation: a vector of records with pairwise distinct identities.
// ---------------------------------------------------------------------------

/// No two records share an identity.
pub open spec fn distinct_ids(recs: Seq<ExecutorRecord>) -> bool {
    forall|i: int, j: int|
        0 <= i < recs.len() && 0 <= j < recs.len() && i != j ==> (#[trigger] recs[i]).id@ != (
        #[trigger] recs[j]).id@
}

/// Whether some record carries the identity.
pub open spec fn holds_id(recs: Seq<ExecutorRecord>, id: Seq<char>) -> bool {
    exists|i: int| 0 <= i < recs.len() && (#[trigger] recs[i]).id@ == id
}

/// The position of a record with the identity.
pub open spec fn position_of(recs: Seq<ExecutorRecord>, id: Seq<char>) -> int {
    choose|i: int| 0 <= i < recs.len() && (#[trigger] recs[i]).id@ == id
}

/// The map that a vector of records stands for.
pub open spec fn model_of(recs: Seq<ExecutorRecord>) -> RegistryModel {
    Map::new(|id: Seq<char>| holds_id(recs, id), |id: Seq<char>| recs[position_of(recs, id)]@)
}

/// Under distinct identities each record is the value of its own identity.
pub proof fn lemma_model_at(recs: Seq<ExecutorRecord>, i: int)
    requires
        distinct_ids(recs),
        0 <= i < recs.len(),
    ensures
        model_of(recs).dom().contains(recs[i].id@),
        model_of(recs)[recs[i].id@] == recs[i]@,
        position_of(recs, recs[i].id@) == i,
{
    let id = recs[i].id@;
    assert(holds_id(recs, id));
    let p = position_of(recs, id);
    assert(0 <= p < recs.len() && recs[p].id@ == id);
}

/// The fleet registry.
#[derive(Debug)]
pub struct CoordinatorService {
    executors: Vec<ExecutorRecord>,
}

impl View for CoordinatorService {
    type V = RegistryModel;

    closed spec fn view(&self) -> RegistryModel {
        model_of(self.executors@)
    }
}

impl Default for CoordinatorService {
    /// An empty registry.
    fn default() -> (r: CoordinatorService)
        ensures
            r@ == Map::<Seq<char>, RecordView>::empty(),
    {
        CoordinatorService::new()
    }
}

impl CoordinatorService {
    #[verifier::type_invariant]
    spec fn well_formed(self) -> bool {
        &&& distinct_ids(self.executors@)
        &&& forall|i: int|
            0 <= i < self.executors.len() ==> (#[trigger] self.executors[i]).health
                != HealthState::Evicted
    }

    /// The number of records held.
    pub closed spec fn spec_len(self) -> nat {
        self.executors@.len()
    }

    /// An empty registry.
    pub fn new() -> (r: CoordinatorService)
        ensures
            r@ == Map::<Seq<char>, RecordView>::empty(),
            r.spec_len() == 0,
    {
        let r = CoordinatorService { executors: Vec::new() };
        assert(r@ =~= Map::<Seq<char>, RecordView>::empty());
        r
    }

    /// Where the record of `id` stands, if there is one.
    fn find(&self, id: &String) -> (r: Option<usize>)
        ensures
            r is Some <==> self@.dom().contains(id@),
            r is Some ==> r->0 < self.executors.len() && self.executors[r->0 as int].id@ == id@,
    {
        let n = self.executors.len();
        let mut i: usize = 0;
        while i < n
            invariant
                n == self.executors.len(),
                i <= n,
                forall|k: int| 0 <= k < i ==> (#[trigger] self.executors[k]).id@ != id@,
            decreases n - i,
        {
            if self.executors[i].id == *id {
                assert(holds_id(self.executors@, id@));
                return Some(i);
            }
            i += 1;
        }
        assert(!holds_id(self.executors@, id@));
        None
    }

    /// Records the executor under its identity, replacing whatever record
    /// stood there, and starts its liveness timer at `now`. Never refuses.
    pub fn register_executor(&mut self, info: ExecutorInfo, now: u64) -> (r: RegisterResponse)
        ensures
            r.success,
            final(self)@ == spec_register(old(self)@, info, now),
    {
        proof {
            use_type_invariant(&*self);
        }
        let ghost before = self.executors@;
        let found = self.find(&info.id);
        let ghost info_view = info;
        let rec = ExecutorRecord {
            id: info.id,
            address: info.address,
            max_memory_mb: info.max_memory_mb,
            active_instances: 0,
            cpu_usage_bits: 0,
            last_heartbeat: now,
            health: HealthState::Active,
        };
        assert(rec@ == registered(info_view, now));
        let mut recs: Vec<ExecutorRecord> = Vec::new();
        core::mem::swap(&mut self.executors, &mut recs);
        match found {
            Some(i) => {
                recs[i] = rec;
                proof {
                    lemma_replace(before, i as int, rec);
                }
            },
            None => {
                recs.push(rec);
                proof {
                    lemma_append(before, rec);
                }
            },
        }
        core::mem::swap(&mut self.executors, &mut recs);
        RegisterResponse { success: true }
    }

    /// Takes a heartbeat at time `now`. For a registered identity the record
    /// gets the reported activity and the new timestamp and is active again.
    /// For any other identity the registry stays as it is and the call fails.
    pub fn heartbeat(&mut self, status: ExecutorStatus, now: u64) -> (r: Result<
        HeartbeatAck,
        RegistryError,
    >)
        ensures
            r == spec_heartbeat_result(old(self)@, status),
            final(self)@ == spec_heartbeat(old(self)@, status, now),
    {
        proof {
            use_type_invariant(&*self);
        }
        let ghost before = self.executors@;
        match self.find(&status.id) {
            Some(i) => {
                let rec = ExecutorRecord {
                    id: self.executors[i].id.clone(),
                    address: self.executors[i].address.clone(),
                    max_memory_mb: self.executors[i].max_memory_mb,
                    active_instances: status.active_instances,
                    cpu_usage_bits: status.cpu_usage_bits,
                    last_heartbeat: now,
                    health: HealthState::Active,
                };
                proof {
                    lemma_model_at(before, i as int);
                    assert(rec@ == refreshed(before[i as int]@, status, now));
                }
                let mut recs: Vec<ExecutorRecord> = Vec::new();
                core::mem::swap(&mut self.executors, &mut recs);
                recs[i] = rec;
                proof {
                    lemma_replace(before, i as int, rec);
                }
                core::mem::swap(&mut self.executors, &mut recs);
                Ok(HeartbeatAck {  })
            },
            None => Err(RegistryError::UnknownExecutor),
        }
    }

    /// One pass of the heartbeat monitor at time `now`. Records silent beyond
    /// the eviction threshold leave the registry and are handed out marked
    /// `Evicted`; of the others, those silent beyond the stale threshold
    /// become `Stale`. Nothing else changes.
    pub fn sweep(&mut self, now: u64, cfg: &MonitorConfig) -> (out: Vec<ExecutorRecord>)
        ensures
            final(self)@ == spec_sweep(old(self)@, now, *cfg),
            model_of(out@) == spec_evictions(old(self)@, now, *cfg),
            distinct_ids(out@),
    {
        proof {
            use_type_invariant(&*self);
        }
        let stale_after = cfg.stale_threshold();
        let evict_after = cfg.eviction_threshold();
        let mut recs: Vec<ExecutorRecord> = Vec::new();
        core::mem::swap(&mut self.executors, &mut recs);
        let mut kept: Vec<ExecutorRecord> = Vec::new();
        let mut out: Vec<ExecutorRecord> = Vec::new();
        let n = recs.len();
        let mut i: usize = 0;
        proof {
            assert(recs@.take(0) =~= Seq::<ExecutorRecord>::empty());
            assert(model_of(recs@.take(0)) =~= Map::<Seq<char>, RecordView>::empty());
            assert(model_of(kept@) =~= spec_sweep(model_of(recs@.take(0)), now, *cfg));
            assert(model_of(out@) =~= spec_evictions(model_of(recs@.take(0)), now, *cfg));
        }
        while i < n
            invariant
                n == recs.len(),
                i <= n,
                stale_after == cfg.stale_after(),
                evict_after == cfg.evict_after(),
                distinct_ids(recs@),
                distinct_ids(kept@),
                distinct_ids(out@),
                forall|k: int| 0 <= k < recs.len() ==> (#[trigger] recs[k]).health != HealthState::Evicted,
                forall|k: int| 0 <= k < kept.len() ==> (#[trigger] kept[k]).health != HealthState::Evicted,
                model_of(kept@) == spec_sweep(model_of(recs@.take(i as int)), now, *cfg),
                model_of(out@) == spec_evictions(model_of(recs@.take(i as int)), now, *cfg),
            decreases n - i,
        {
            let ghost seen = recs@.take(i as int);
            let ghost cur = recs[i as int];
            proof {
                lemma_take_step(recs@, i as int);
                lemma_sweep_insert(model_of(seen), cur@, now, *cfg);
            }
            let last = recs[i].last_heartbeat;
            let quiet: u64 = if now >= last { now - last } else { 0 };
            let mut rec = recs[i].clone();
            if quiet > evict_after {
                rec.health = HealthState::Evicted;
                proof {
                    assert(rec@ == evicted(cur@));
                    assert(!holds_id(out@, rec.id@)) by {
                        assert(!spec_evictions(model_of(seen), now, *cfg).dom().contains(cur.id@));
                    }
                    lemma_append(out@, rec);
                }
                out.push(rec);
            } else {
                if quiet > stale_after {
                    rec.health = HealthState::Stale;
                }
                proof {
                    assert(rec@ == swept(cur@, now, *cfg));
                    assert(!holds_id(kept@, rec.id@)) by {
                        assert(!spec_sweep(model_of(seen), now, *cfg).dom().contains(cur.id@));
                    }
                    lemma_append(kept@, rec);
                }
                kept.push(rec);
            }
            i += 1;
        }
        proof {
            assert(recs@.take(n as int) =~= recs@);
        }
        core::mem::swap(&mut self.executors, &mut kept);
        out
    }

    /// The record held under `id`, if there is one.
    pub fn lookup(&self, id: &String) -> (r: Option<ExecutorRecord>)
        ensures
            r is Some <==> self@.dom().contains(id@),
            r is Some ==> r->0@ == self@[id@],
    {
        proof {
            use_type_invariant(self);
        }
        match self.find(id) {
            Some(i) => {
                proof {
                    lemma_model_at(self.executors@, i as int);
                }
                Some(self.executors[i].clone())
            },
            None => None,
        }
    }

    /// How many executors are registered.
    pub fn len(&self) -> (n: usize)
        ensures
            self@.dom().finite(),
            n == self@.dom().len(),
    {
        proof {
            use_type_invariant(self);
            lemma_model_size(self.executors@);
        }
        self.executors.len()
    }

    /// Whether `id` is registered.
    pub fn contains(&self, id: &String) -> (r: bool)
        ensures
            r == self@.dom().contains(id@),
    {
        self.find(id).is_some()
    }

    /// The liveness of `id`: `Active` or `Stale` while it is registered,
    /// nothing once it is not.
    pub fn health_of(&self, id: &String) -> (r: Option<HealthState>)
        ensures
            r is Some <==> self@.dom().contains(id@),
            r is Some ==> r->0 == self@[id@].health && r->0 != HealthState::Evicted,
    {
        proof {
            use_type_invariant(self);
        }
        match self.find(id) {
            Some(i) => {
                proof {
                    lemma_model_at(self.executors@, i as int);
                }
                Some(self.executors[i].health)
            },
            None => None,
        }
    }
}

/// Under distinct identities the map has as many entries as there are records.
proof fn lemma_model_size(recs: Seq<ExecutorRecord>)
    requires
        distinct_ids(recs),
    ensures
        model_of(recs).dom().finite(),
        model_of(recs).dom().len() == recs.len(),
    decreases recs.len(),
{
    if recs.len() == 0 {
        assert(model_of(recs).dom() =~= Set::<Seq<char>>::empty());
    } else {
        let i = recs.len() - 1;
        lemma_take_step(recs, i);
        assert(recs.take(i + 1) =~= recs);
        lemma_model_size(recs.take(i));
        assert(model_of(recs).dom() =~= model_of(recs.take(i)).dom().insert(recs[i].id@));
    }
}

/// The first `i + 1` records are the first `i` and the one at `i`, whose
/// identity is not among them.
proof fn lemma_take_step(recs: Seq<ExecutorRecord>, i: int)
    requires
        distinct_ids(recs),
        0 <= i < recs.len(),
    ensures
        distinct_ids(recs.take(i)),
        !model_of(recs.take(i)).dom().contains(recs[i].id@),
        model_of(recs.take(i + 1)) == model_of(recs.take(i)).insert(recs[i].id@, recs[i]@),
{
    let seen = recs.take(i);
    assert(distinct_ids(seen)) by {
        assert forall|a: int, b: int|
            0 <= a < seen.len() && 0 <= b < seen.len() && a != b implies (#[trigger] seen[a]).id@
            != (#[trigger] seen[b]).id@ by {
            assert(seen[a] == recs[a]);
            assert(seen[b] == recs[b]);
        }
    }
    if holds_id(seen, recs[i].id@) {
        let k = position_of(seen, recs[i].id@);
        assert(seen[k] == recs[k]);
    }
    assert(recs.take(i + 1) =~= seen.push(recs[i]));
    lemma_append(seen, recs[i]);
}

/// How a sweep treats a map that has grown by one fresh record.
pub proof fn lemma_sweep_insert(m: RegistryModel, r: RecordView, now: u64, cfg: MonitorConfig)
    requires
        !m.dom().contains(r.id),
    ensures
        is_evicted(r, now, cfg) ==> spec_sweep(m.insert(r.id, r), now, cfg) == spec_sweep(
            m,
            now,
            cfg,
        ) && spec_evictions(m.insert(r.id, r), now, cfg) == spec_evictions(m, now, cfg).insert(
            r.id,
            evicted(r),
        ),
        !is_evicted(r, now, cfg) ==> spec_sweep(m.insert(r.id, r), now, cfg) == spec_sweep(
            m,
            now,
            cfg,
        ).insert(r.id, swept(r, now, cfg)) && spec_evictions(m.insert(r.id, r), now, cfg)
            == spec_evictions(m, now, cfg),
        !spec_sweep(m, now, cfg).dom().contains(r.id),
        !spec_evictions(m, now, cfg).dom().contains(r.id),
{
    let grown = m.insert(r.id, r);
    if is_evicted(r, now, cfg) {
        assert(spec_sweep(grown, now, cfg) =~= spec_sweep(m, now, cfg));
        assert(spec_evictions(grown, now, cfg) =~= spec_evictions(m, now, cfg).insert(
            r.id,
            evicted(r),
        ));
    } else {
        assert(spec_sweep(grown, now, cfg) =~= spec_sweep(m, now, cfg).insert(
            r.id,
            swept(r, now, cfg),
        ));
        assert(spec_evictions(grown, now, cfg) =~= spec_evictions(m, now, cfg));
    }
}

/// Replacing a record by one of the same identity updates the map at that
/// identity and keeps the identities distinct.
proof fn lemma_replace(recs: Seq<ExecutorRecord>, i: int, rec: ExecutorRecord)
    requires
        distinct_ids(recs),
        0 <= i < recs.len(),
        rec.id@ == recs[i].id@,
    ensures
        distinct_ids(recs.update(i, rec)),
        model_of(recs.update(i, rec)) == model_of(recs).insert(rec.id@, rec@),
{
    let after = recs.update(i, rec);
    assert(distinct_ids(after)) by {
        assert forall|a: int, b: int|
            0 <= a < after.len() && 0 <= b < after.len() && a != b implies (#[trigger] after[a]).id@
            != (#[trigger] after[b]).id@ by {
            assert(after[a].id@ == recs[a].id@);
            assert(after[b].id@ == recs[b].id@);
        }
    }
    let goal = model_of(recs).insert(rec.id@, rec@);
    assert forall|id: Seq<char>| model_of(after).dom().contains(id) <==> goal.dom().contains(
        id,
    ) by {
        if holds_id(after, id) {
            let k = position_of(after, id);
            assert(recs[k].id@ == id);
        }
        if holds_id(recs, id) {
            let k = position_of(recs, id);
            assert(after[k].id@ == id);
        }
        if id == rec.id@ {
            assert(after[i].id@ == id);
        }
    }
    assert forall|id: Seq<char>| model_of(after).dom().contains(id) implies model_of(after)[id]
        == goal[id] by {
        let k = position_of(after, id);
        lemma_model_at(after, k);
        if k != i {
            assert(recs[k].id@ == id);
            lemma_model_at(recs, k);
        }
    }
    assert(model_of(after) =~= goal);
}

/// Appending a record with a fresh identity inserts it into the map and keeps
/// the identities distinct.
proof fn lemma_append(recs: Seq<ExecutorRecord>, rec: ExecutorRecord)
    requires
        distinct_ids(recs),
        !holds_id(recs, rec.id@),
    ensures
        distinct_ids(recs.push(rec)),
        model_of(recs.push(rec)) == model_of(recs).insert(rec.id@, rec@),
{
    let after = recs.push(rec);
    assert(distinct_ids(after)) by {
        assert forall|a: int, b: int|
            0 <= a < after.len() && 0 <= b < after.len() && a != b implies (#[trigger] after[a]).id@
            != (#[trigger] after[b]).id@ by {
            if a < recs.len() {
                assert(after[a] == recs[a]);
            }
            if b < recs.len() {
                assert(after[b] == recs[b]);
            }
        }
    }
    let goal = model_of(recs).insert(rec.id@, rec@);
    assert forall|id: Seq<char>| model_of(after).dom().contains(id) <==> goal.dom().contains(
        id,
    ) by {
        if holds_id(after, id) {
            let k = position_of(after, id);
            if k < recs.len() {
                assert(recs[k].id@ == id);
            }
        }
        if holds_id(recs, id) {
            let k = position_of(recs, id);
            assert(after[k].id@ == id);
        }
        if id == rec.id@ {
            assert(after[recs.len() as int].id@ == id);
        }
    }
    assert forall|id: Seq<char>| model_of(after).dom().contains(id) implies model_of(after)[id]
        == goal[id] by {
        let k = position_of(after, id);
        lemma_model_at(after, k);
        if k < recs.len() {
            assert(recs[k].id@ == id);
            lemma_model_at(recs, k);
        }
    }
    assert(model_of(after) =~= goal);
}

} // verus!
