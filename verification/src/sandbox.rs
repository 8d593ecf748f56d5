//! The bookkeeping of one sandboxed game instance: its budget, its health and
//! its latest snapshot, and the judgement of what a guest call left behind.
//!
//! The virtual machine itself is driven from outside this library. Before a
//! guest call the caller asks `begin_advance` where the input goes and how much
//! fuel the call gets; after it, the caller reports how the call ended and
//! hands over the guest's memory, and `finish_advance` says what the tick
//! produced.
use crate::frame::{frame_fits, read_frame, spec_read_frame};
use vstd::prelude::*;
use vstd::utf8::{decode_utf8, valid_utf8};

verus! {

/// What can go wrong with one instance. None of these is fatal to the host.
#[derive(Clone, Copy, Debug, PartialEq, Eq, Structural)]
pub enum SandboxFault {
    /// The guest used up the fuel of the tick.
    CpuExhausted,
    /// The guest's memory, or the input for it, is larger than the ceiling
    /// allows.
    MemoryExceeded,
    /// What the guest returned does not describe a frame of text inside its
    /// memory.
    InvalidOutput,
    /// The guest stopped with a trap of its own.
    GuestTrap,
}

/// Whether an instance has faulted in a way that leaves its state in doubt.
#[derive(Clone, Copy, Debug, PartialEq, Eq, Structural)]
pub enum InstanceHealth {
    Healthy,
    Degraded,
}

/// How a call of the guest's tick entry point ended, as the virtual machine
/// reports it.
#[derive(Clone, Copy, Debug, PartialEq, Eq, Structural)]
pub enum GuestExit {
    /// The call returned this offset into the guest's memory.
    Returned(i32),
    /// The call was cut off because the fuel ran out.
    OutOfFuel,
    /// The guest asked for more memory than its ceiling.
    MemoryLimit,
    /// The call ended in any other trap.
    Trapped,
}

/// What the caller is to do for one guest call: grant `fuel`, write the input
/// at `input_offset`, and pass `input_offset` and `input_len` to the guest.
#[derive(Clone, Copy, Debug, PartialEq, Eq, Structural)]
pub struct AdvancePlan {
    pub fuel: u64,
    pub input_offset: i32,
    pub input_len: i32,
}

/// Bytes in one megabyte of guest memory.
pub const BYTES_PER_MB: u64 = 1_048_576;

/// The memory ceiling in bytes for a ceiling declared in megabytes. A
/// negative declaration allows nothing.
pub open spec fn spec_ceiling(max_memory_mb: i32) -> int {
    if max_memory_mb < 0 {
        0
    } else {
        max_memory_mb * BYTES_PER_MB
    }
}

/// Whether a guest call may go ahead: the guest's memory is within the
/// ceiling, and the input fits into that memory and into the guest's signed
/// 32-bit length.
pub open spec fn input_admissible(ceiling: int, memory_len: int, input_len: int) -> bool {
    &&& memory_len <= ceiling
    &&& input_len <= memory_len
    &&& input_len <= i32::MAX
}

/// The plan for a guest call: the whole budget of the tick, the input at the
/// start of the guest's memory.
pub open spec fn spec_plan(fuel_per_tick: u64, input_len: int) -> AdvancePlan {
    AdvancePlan { fuel: fuel_per_tick, input_offset: 0, input_len: input_len as i32 }
}

/// The snapshot text that lies framed at offset `at` of `memory`, if a whole
/// frame lies there and its payload is UTF-8.
pub open spec fn spec_snapshot(memory: Seq<u8>, at: int) -> Option<Seq<char>> {
    match spec_read_frame(memory, at) {
        Some(payload) => if valid_utf8(payload) {
            Some(decode_utf8(payload))
        } else {
            None
        },
        None => None,
    }
}

/// What a guest call amounts to, given how it ended, the instance's memory
/// ceiling and the guest's memory afterwards. Memory that has outgrown the
/// ceiling is not read.
pub open spec fn spec_outcome(exit: GuestExit, ceiling: int, memory: Seq<u8>) -> Result<
    Seq<char>,
    SandboxFault,
> {
    match exit {
        GuestExit::OutOfFuel => Err(SandboxFault::CpuExhausted),
        GuestExit::MemoryLimit => Err(SandboxFault::MemoryExceeded),
        GuestExit::Trapped => Err(SandboxFault::GuestTrap),
        GuestExit::Returned(at) => if memory.len() > ceiling {
            Err(SandboxFault::MemoryExceeded)
        } else {
            match spec_snapshot(memory, at as int) {
                Some(text) => Ok(text),
                None => Err(SandboxFault::InvalidOutput),
            }
        },
    }
}

/// The faults after which the instance counts as degraded.
pub open spec fn degrades(fault: SandboxFault) -> bool {
    fault == SandboxFault::CpuExhausted || fault == SandboxFault::GuestTrap
}

/// The fuel an instance has left after a guest call that started with
/// `granted` and, by the virtual machine's count, ended with `reported`.
pub open spec fn spec_fuel_after(exit: GuestExit, granted: u64, reported: u64) -> u64 {
    if exit == GuestExit::OutOfFuel {
        0
    } else if reported <= granted {
        reported
    } else {
        granted
    }
}

/// Running out of fuel is always `CpuExhausted`, whatever the ceiling and
/// whatever the guest left in its memory.
pub proof fn lemma_out_of_fuel_is_cpu_exhausted(ceiling: int, memory: Seq<u8>)
    ensures
        spec_outcome(GuestExit::OutOfFuel, ceiling, memory) == Err::<Seq<char>, SandboxFault>(
            SandboxFault::CpuExhausted,
        ),
        degrades(SandboxFault::CpuExhausted),
{
}

/// A guest call gives a snapshot only if it returned, its memory is within
/// the ceiling, and the whole frame it points at lies inside that memory.
pub proof fn lemma_snapshot_only_from_inside(exit: GuestExit, ceiling: int, memory: Seq<u8>)
    requires
        spec_outcome(exit, ceiling, memory) is Ok,
    ensures
        exit is Returned,
        memory.len() <= ceiling,
        frame_fits(memory, exit->Returned_0 as int),
{
}

/// The mathematical value of a `GameInstance`.
pub ghost struct InstanceView {
    pub fuel_per_tick: u64,
    pub memory_ceiling: int,
    pub fuel_remaining: u64,
    pub health: InstanceHealth,
    pub snapshot: Option<Seq<char>>,
}

/// One sandboxed simulation, as the host keeps account of it.
pub struct GameInstance {
    fuel_per_tick: u64,
    memory_ceiling: u64,
    fuel_remaining: u64,
    health: InstanceHealth,
    snapshot: Option<String>,
}

impl View for GameInstance {
    type V = InstanceView;

    closed spec fn view(&self) -> InstanceView {
        InstanceView {
            fuel_per_tick: self.fuel_per_tick,
            memory_ceiling: self.memory_ceiling as int,
            fuel_remaining: self.fuel_remaining,
            health: self.health,
            snapshot: match self.snapshot {
                Some(s) => Some(s@),
                None => None,
            },
        }
    }
}

/// Whether a guest memory of `size` bytes is within a ceiling of `ceiling`
/// bytes. The virtual machine asks this before it lets the guest's memory
/// grow.
pub fn within_ceiling(ceiling: u64, size: usize) -> (r: bool)
    ensures
        r == (size <= ceiling),
{
    size as u64 <= ceiling
}

/// Reads a vector of bytes as text with `String::from_utf8` of the standard
/// library. Believed, not proved: the call succeeds exactly on well-formed
/// UTF-8, and the text it gives is what those bytes decode to.
#[verifier::external_body]
fn text_of(bytes: Vec<u8>) -> (r: Option<String>)
    ensures
        r is Some <==> valid_utf8(bytes@),
        r is Some ==> r->0@ == decode_utf8(bytes@),
{
    match String::from_utf8(bytes) {
        Ok(text) => Some(text),
        Err(_) => None,
    }
}

/// Reads the snapshot that the guest left framed at offset `at` of its
/// memory.
pub fn read_snapshot(memory: &[u8], at: i32) -> (r: Option<String>)
    ensures
        r is Some <==> spec_snapshot(memory@, at as int) is Some,
        r is Some ==> Some(r->0@) == spec_snapshot(memory@, at as int),
{
    match read_frame(memory, at) {
        Some(payload) => text_of(payload),
        None => None,
    }
}

impl GameInstance {
    /// A fresh instance: healthy, with a full budget and no snapshot yet.
    pub fn load(fuel_per_tick: u64, max_memory_mb: i32) -> (r: GameInstance)
        ensures
            r@ == (InstanceView {
                fuel_per_tick,
                memory_ceiling: spec_ceiling(max_memory_mb),
                fuel_remaining: fuel_per_tick,
                health: InstanceHealth::Healthy,
                snapshot: None,
            }),
    {
        let ceiling: u64 = if max_memory_mb < 0 {
            0
        } else {
            (max_memory_mb as u64) * BYTES_PER_MB
        };
        GameInstance {
            fuel_per_tick,
            memory_ceiling: ceiling,
            fuel_remaining: fuel_per_tick,
            health: InstanceHealth::Healthy,
            snapshot: None,
        }
    }

    /// Opens a guest call. The budget is refilled in any case. If the guest's
    /// memory is within the ceiling and the input fits, the plan for the call
    /// comes back; if not, `MemoryExceeded`, and the guest is not to be called.
    pub fn begin_advance(&mut self, memory_len: usize, input_len: usize) -> (r: Result<
        AdvancePlan,
        SandboxFault,
    >)
        ensures
            final(self)@ == (InstanceView {
                fuel_remaining: old(self)@.fuel_per_tick,
                ..old(self)@
            }),
            input_admissible(old(self)@.memory_ceiling, memory_len as int, input_len as int) ==> r
                == Ok::<AdvancePlan, SandboxFault>(
                spec_plan(old(self)@.fuel_per_tick, input_len as int),
            ),
            !input_admissible(old(self)@.memory_ceiling, memory_len as int, input_len as int) ==> r
                == Err::<AdvancePlan, SandboxFault>(SandboxFault::MemoryExceeded),
    {
        self.fuel_remaining = self.fuel_per_tick;
        if within_ceiling(self.memory_ceiling, memory_len) && input_len <= memory_len && input_len
            <= 0x7fff_ffff {
            Ok(AdvancePlan { fuel: self.fuel_per_tick, input_offset: 0, input_len: input_len as i32 })
        } else {
            Err(SandboxFault::MemoryExceeded)
        }
    }

    /// Closes a guest call that ended with `exit`, with `fuel_left` on the
    /// virtual machine's meter and `memory` as the guest's memory. A snapshot
    /// read from inside `memory`, if that is within the ceiling, becomes the
    /// instance's latest and is returned. Any fault leaves the latest snapshot
    /// as it was; running out of fuel and trapping also mark the instance
    /// degraded.
    pub fn finish_advance(&mut self, exit: GuestExit, fuel_left: u64, memory: &[u8]) -> (r: Result<
        String,
        SandboxFault,
    >)
        ensures
            r is Ok <==> spec_outcome(exit, old(self)@.memory_ceiling, memory@) is Ok,
            r is Ok ==> Ok::<Seq<char>, SandboxFault>(r->Ok_0@) == spec_outcome(
                exit,
                old(self)@.memory_ceiling,
                memory@,
            ),
            r is Err ==> Err::<Seq<char>, SandboxFault>(r->Err_0) == spec_outcome(
                exit,
                old(self)@.memory_ceiling,
                memory@,
            ),
            final(self)@ == (InstanceView {
                fuel_remaining: spec_fuel_after(exit, old(self)@.fuel_remaining, fuel_left),
                health: if r is Err && degrades(r->Err_0) {
                    InstanceHealth::Degraded
                } else {
                    old(self)@.health
                },
                snapshot: if r is Ok {
                    Some(r->Ok_0@)
                } else {
                    old(self)@.snapshot
                },
                ..old(self)@
            }),
    {
        let exhausted = match exit {
            GuestExit::OutOfFuel => true,
            _ => false,
        };
        if exhausted {
            self.fuel_remaining = 0;
        } else if fuel_left <= self.fuel_remaining {
            self.fuel_remaining = fuel_left;
        }
        match exit {
            GuestExit::OutOfFuel => {
                self.health = InstanceHealth::Degraded;
                Err(SandboxFault::CpuExhausted)
            },
            GuestExit::Trapped => {
                self.health = InstanceHealth::Degraded;
                Err(SandboxFault::GuestTrap)
            },
            GuestExit::MemoryLimit => Err(SandboxFault::MemoryExceeded),
            GuestExit::Returned(at) => if !within_ceiling(self.memory_ceiling, memory.len()) {
                Err(SandboxFault::MemoryExceeded)
            } else {
                match read_snapshot(memory, at) {
                    Some(text) => {
                        self.snapshot = Some(text.clone());
                        Ok(text)
                    },
                    None => Err(SandboxFault::InvalidOutput),
                }
            },
        }
    }

    /// Whether the instance has faulted in a way that leaves it in doubt.
    pub fn health(&self) -> (r: InstanceHealth)
        ensures
            r == self@.health,
    {
        self.health
    }

    /// The fuel left of the current tick's budget.
    pub fn fuel_remaining(&self) -> (r: u64)
        ensures
            r == self@.fuel_remaining,
    {
        self.fuel_remaining
    }

    /// The fuel granted to each tick.
    pub fn fuel_per_tick(&self) -> (r: u64)
        ensures
            r == self@.fuel_per_tick,
    {
        self.fuel_per_tick
    }

    /// The memory ceiling in bytes.
    pub fn memory_ceiling(&self) -> (r: u64)
        ensures
            r == self@.memory_ceiling,
    {
        self.memory_ceiling
    }

    /// The latest snapshot, if a tick has produced one.
    pub fn snapshot(&self) -> (r: Option<String>)
        ensures
            r is Some <==> self@.snapshot is Some,
            r is Some ==> Some(r->0@) == self@.snapshot,
    {
        match &self.snapshot {
            Some(s) => Some(s.clone()),
            None => None,
        }
    }
}

} // verus!
