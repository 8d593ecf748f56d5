use rcc_core::frame::encode_frame;
use rcc_core::sandbox::{
    read_snapshot, within_ceiling, AdvancePlan, GameInstance, GuestExit, InstanceHealth,
    SandboxFault, BYTES_PER_MB,
};

const FUEL: u64 = 1_000_000;

fn memory_with(at: usize, payload: &[u8], size: usize) -> Vec<u8> {
    let mut memory = vec![0u8; size];
    let frame = encode_frame(payload).expect("fits the header");
    memory[at..at + frame.len()].copy_from_slice(&frame);
    memory
}

#[test]
fn a_fresh_instance_is_healthy_with_a_full_budget() {
    let instance = GameInstance::load(FUEL, 256);
    assert_eq!(instance.health(), InstanceHealth::Healthy);
    assert_eq!(instance.fuel_per_tick(), FUEL);
    assert_eq!(instance.fuel_remaining(), FUEL);
    assert_eq!(instance.memory_ceiling(), 268_435_456);
    assert_eq!(instance.memory_ceiling(), 256 * BYTES_PER_MB);
    assert_eq!(instance.snapshot(), None);
}

#[test]
fn a_negative_ceiling_allows_no_memory() {
    let mut instance = GameInstance::load(FUEL, -1);
    assert_eq!(instance.memory_ceiling(), 0);
    assert_eq!(instance.begin_advance(1, 0), Err(SandboxFault::MemoryExceeded));
    assert_eq!(
        instance.begin_advance(0, 0),
        Ok(AdvancePlan { fuel: FUEL, input_offset: 0, input_len: 0 })
    );
}

#[test]
fn the_plan_puts_the_input_at_the_start_and_grants_the_whole_budget() {
    let mut instance = GameInstance::load(FUEL, 1);
    assert_eq!(
        instance.begin_advance(65_536, 120),
        Ok(AdvancePlan { fuel: FUEL, input_offset: 0, input_len: 120 })
    );
    assert_eq!(
        instance.begin_advance(1_048_576, 1_048_576),
        Ok(AdvancePlan { fuel: FUEL, input_offset: 0, input_len: 1_048_576 })
    );
}

#[test]
fn input_or_memory_beyond_the_ceiling_is_memory_exceeded() {
    let mut instance = GameInstance::load(FUEL, 1);
    assert_eq!(instance.begin_advance(1_048_577, 10), Err(SandboxFault::MemoryExceeded));
    assert_eq!(instance.begin_advance(65_536, 65_537), Err(SandboxFault::MemoryExceeded));
    assert_eq!(instance.health(), InstanceHealth::Healthy);
}

#[test]
fn the_budget_is_refilled_before_every_call() {
    let mut instance = GameInstance::load(FUEL, 1);
    instance.begin_advance(65_536, 2).expect("the input fits");
    let memory = memory_with(16, b"{}", 65_536);
    instance.finish_advance(GuestExit::Returned(16), 400, &memory).expect("a snapshot");
    assert_eq!(instance.fuel_remaining(), 400);
    instance.begin_advance(65_536, 2).expect("the input fits");
    assert_eq!(instance.fuel_remaining(), FUEL);
    assert_eq!(instance.finish_advance(GuestExit::OutOfFuel, 77, &memory), Err(SandboxFault::CpuExhausted));
    assert_eq!(instance.fuel_remaining(), 0);
    assert_eq!(instance.begin_advance(65_537 * 16, 2), Err(SandboxFault::MemoryExceeded));
    assert_eq!(instance.fuel_remaining(), FUEL);
}

#[test]
fn a_meter_that_reads_more_than_was_granted_is_not_believed() {
    let mut instance = GameInstance::load(FUEL, 1);
    instance.begin_advance(65_536, 0).expect("the input fits");
    let memory = memory_with(0, b"{}", 64);
    instance.finish_advance(GuestExit::Returned(0), FUEL + 1, &memory).expect("a snapshot");
    assert_eq!(instance.fuel_remaining(), FUEL);
}

#[test]
fn a_returned_frame_becomes_the_latest_snapshot() {
    let mut instance = GameInstance::load(FUEL, 1);
    let text = "{\"players\":{\"p1\":{\"id\":\"p1\",\"x\":0.5,\"y\":1.0,\"z\":0.0,\"msg\":null}},\"chat\":[]}";
    let memory = memory_with(1_024, text.as_bytes(), 65_536);
    instance.begin_advance(memory.len(), 30).expect("the input fits");
    assert_eq!(
        instance.finish_advance(GuestExit::Returned(1_024), 10, &memory),
        Ok(text.to_string())
    );
    assert_eq!(instance.snapshot(), Some(text.to_string()));
    assert_eq!(instance.health(), InstanceHealth::Healthy);
}

#[test]
fn snapshot_text_is_decoded_from_utf8() {
    let bytes = [0x7b, 0x22, 0xc3, 0xa9, 0xe2, 0x82, 0xac, 0xf0, 0x9f, 0x8e, 0xae, 0x22, 0x7d];
    let memory = memory_with(8, &bytes, 64);
    let text = read_snapshot(&memory, 8).expect("well-formed text");
    assert_eq!(text, "{\"\u{e9}\u{20ac}\u{1f3ae}\"}");
    assert_eq!(text.chars().count(), 7);
}

#[test]
fn bytes_that_are_not_utf8_are_invalid_output() {
    let mut instance = GameInstance::load(FUEL, 1);
    let memory = memory_with(0, &[0x7b, 0xff, 0x7d], 64);
    assert_eq!(read_snapshot(&memory, 0), None);
    assert_eq!(
        instance.finish_advance(GuestExit::Returned(0), 0, &memory),
        Err(SandboxFault::InvalidOutput)
    );
    let truncated = memory_with(0, &[0xe2, 0x82], 64);
    assert_eq!(read_snapshot(&truncated, 0), None);
    assert_eq!(instance.health(), InstanceHealth::Healthy);
    assert_eq!(instance.snapshot(), None);
}

#[test]
fn an_offset_or_length_outside_the_memory_is_invalid_output() {
    let mut instance = GameInstance::load(FUEL, 1);
    let memory = memory_with(0, b"{}", 64);
    for at in [-1, 61, 64, 1_000_000, i32::MAX, i32::MIN] {
        assert_eq!(
            instance.finish_advance(GuestExit::Returned(at), 0, &memory),
            Err(SandboxFault::InvalidOutput)
        );
    }
    let mut lying = vec![0u8; 64];
    lying[0] = 61;
    assert_eq!(
        instance.finish_advance(GuestExit::Returned(0), 0, &lying),
        Err(SandboxFault::InvalidOutput)
    );
    lying[0] = 60;
    assert!(instance.finish_advance(GuestExit::Returned(0), 0, &lying).is_ok());
}

#[test]
fn running_out_of_fuel_is_cpu_exhausted_whatever_the_memory_holds() {
    let good = memory_with(0, b"{}", 64);
    for memory in [Vec::new(), vec![0xff; 8], good] {
        let mut instance = GameInstance::load(FUEL, 1);
        instance.begin_advance(memory.len(), 0).expect("the input fits");
        assert_eq!(
            instance.finish_advance(GuestExit::OutOfFuel, 0, &memory),
            Err(SandboxFault::CpuExhausted)
        );
        assert_eq!(instance.health(), InstanceHealth::Degraded);
        assert_eq!(instance.fuel_remaining(), 0);
        assert_eq!(instance.snapshot(), None);
    }
}

#[test]
fn a_trap_degrades_and_a_memory_limit_does_not() {
    let memory = memory_with(0, b"{}", 64);
    let mut instance = GameInstance::load(FUEL, 1);
    assert_eq!(
        instance.finish_advance(GuestExit::MemoryLimit, 5, &memory),
        Err(SandboxFault::MemoryExceeded)
    );
    assert_eq!(instance.health(), InstanceHealth::Healthy);
    assert_eq!(
        instance.finish_advance(GuestExit::Trapped, 5, &memory),
        Err(SandboxFault::GuestTrap)
    );
    assert_eq!(instance.health(), InstanceHealth::Degraded);
}

#[test]
fn a_fault_keeps_the_last_good_snapshot() {
    let mut instance = GameInstance::load(FUEL, 1);
    let memory = memory_with(0, b"{\"chat\":[]}", 64);
    instance.finish_advance(GuestExit::Returned(0), 0, &memory).expect("a snapshot");
    assert_eq!(instance.finish_advance(GuestExit::Trapped, 0, &memory), Err(SandboxFault::GuestTrap));
    assert_eq!(instance.finish_advance(GuestExit::Returned(63), 0, &memory), Err(SandboxFault::InvalidOutput));
    assert_eq!(instance.snapshot(), Some("{\"chat\":[]}".to_string()));
    assert_eq!(instance.health(), InstanceHealth::Degraded);
}

#[test]
fn memory_that_outgrew_the_ceiling_is_not_read() {
    let mut instance = GameInstance::load(FUEL, 1);
    let memory = memory_with(0, b"{}", 1_048_577);
    assert_eq!(
        instance.finish_advance(GuestExit::Returned(0), 0, &memory),
        Err(SandboxFault::MemoryExceeded)
    );
    assert_eq!(instance.snapshot(), None);
    assert_eq!(instance.health(), InstanceHealth::Healthy);
    let memory = memory_with(0, b"{}", 1_048_576);
    assert_eq!(instance.finish_advance(GuestExit::Returned(0), 0, &memory), Ok("{}".to_string()));
}

#[test]
fn the_ceiling_itself_is_still_allowed() {
    assert!(within_ceiling(1_048_576, 0));
    assert!(within_ceiling(1_048_576, 1_048_576));
    assert!(!within_ceiling(1_048_576, 1_048_577));
    assert!(!within_ceiling(0, 1));
    assert!(within_ceiling(0, 0));
}
