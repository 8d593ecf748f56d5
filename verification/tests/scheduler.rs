use rcc_core::queue::PendingInput;
use rcc_core::sandbox::{GameInstance, GuestExit, SandboxFault};
use rcc_core::scheduler::{pause_after, Phase, TickDecision, TickScheduler, TICK_PERIOD_MICROS};

fn running() -> TickScheduler {
    let mut scheduler = TickScheduler::new();
    assert!(scheduler.start());
    scheduler
}

#[test]
fn the_period_is_a_sixtieth_of_a_second() {
    assert_eq!(TICK_PERIOD_MICROS, 16_667);
}

#[test]
fn the_pause_is_the_rest_of_the_period() {
    assert_eq!(pause_after(0), 16_667);
    assert_eq!(pause_after(10_000), 6_667);
    assert_eq!(pause_after(16_666), 1);
    assert_eq!(pause_after(16_667), 0);
}

#[test]
fn an_overrun_is_not_made_up_for() {
    assert_eq!(pause_after(16_668), 0);
    assert_eq!(pause_after(50_000), 0);
    assert_eq!(pause_after(u64::MAX), 0);
}

#[test]
fn a_scheduler_starts_once() {
    let mut scheduler = TickScheduler::new();
    assert_eq!(scheduler.phase(), Phase::Idle);
    assert!(!scheduler.is_degraded());
    assert_eq!(scheduler.current(), None);
    assert!(scheduler.start());
    assert_eq!(scheduler.phase(), Phase::Running);
    assert!(!scheduler.start());
    assert_eq!(scheduler.phase(), Phase::Running);
    scheduler.request_stop();
    assert_eq!(scheduler.phase(), Phase::Stopped);
    assert!(!scheduler.start());
    assert_eq!(scheduler.phase(), Phase::Stopped);
}

#[test]
fn no_cycle_begins_before_the_start_or_after_the_stop() {
    let mut queue: PendingInput<u8> = PendingInput::new();
    queue.append(1);
    let mut scheduler = TickScheduler::new();
    assert_eq!(scheduler.begin_cycle(&mut queue), None);
    assert_eq!(queue.len(), 1);
    scheduler.start();
    scheduler.request_stop();
    assert_eq!(scheduler.begin_cycle(&mut queue), None);
    assert_eq!(queue.len(), 1);
}

#[test]
fn a_cycle_takes_the_waiting_inputs_once() {
    let mut queue: PendingInput<u8> = PendingInput::new();
    let mut scheduler = running();
    queue.append(1);
    queue.append(2);
    assert_eq!(scheduler.begin_cycle(&mut queue), Some(vec![1, 2]));
    assert!(queue.is_empty());
    queue.append(3);
    // The cycle is under way: a second one does not begin, and 3 keeps waiting.
    assert_eq!(scheduler.begin_cycle(&mut queue), None);
    assert_eq!(queue.len(), 1);
    assert_eq!(scheduler.on_result(Ok("s1".to_string())), TickDecision::Publish);
    assert_eq!(scheduler.begin_cycle(&mut queue), Some(vec![3]));
}

#[test]
fn a_snapshot_becomes_current() {
    let mut queue: PendingInput<u8> = PendingInput::new();
    let mut scheduler = running();
    scheduler.begin_cycle(&mut queue).expect("a cycle begins");
    assert_eq!(scheduler.on_result(Ok("s1".to_string())), TickDecision::Publish);
    assert_eq!(scheduler.current(), Some("s1".to_string()));
    scheduler.begin_cycle(&mut queue).expect("a cycle begins");
    assert_eq!(scheduler.on_result(Ok("s2".to_string())), TickDecision::Publish);
    assert_eq!(scheduler.current(), Some("s2".to_string()));
    assert!(!scheduler.is_degraded());
}

#[test]
fn a_fault_is_retried_once_on_a_fresh_instance() {
    let mut queue: PendingInput<u8> = PendingInput::new();
    let mut scheduler = running();
    scheduler.begin_cycle(&mut queue).expect("a cycle begins");
    assert_eq!(scheduler.on_result(Err(SandboxFault::GuestTrap)), TickDecision::RetryFresh);
    assert!(!scheduler.is_degraded());
    assert_eq!(scheduler.on_result(Ok("s1".to_string())), TickDecision::Publish);
    assert_eq!(scheduler.current(), Some("s1".to_string()));
    assert!(!scheduler.is_degraded());
}

#[test]
fn a_second_fault_holds_the_previous_snapshot() {
    let mut queue: PendingInput<u8> = PendingInput::new();
    let mut scheduler = running();
    scheduler.begin_cycle(&mut queue).expect("a cycle begins");
    scheduler.on_result(Ok("good".to_string()));
    scheduler.begin_cycle(&mut queue).expect("a cycle begins");
    assert_eq!(scheduler.on_result(Err(SandboxFault::InvalidOutput)), TickDecision::RetryFresh);
    assert_eq!(scheduler.on_result(Err(SandboxFault::MemoryExceeded)), TickDecision::HoldPrevious);
    assert_eq!(scheduler.current(), Some("good".to_string()));
    assert!(scheduler.is_degraded());
    // The next good cycle clears the mark.
    scheduler.begin_cycle(&mut queue).expect("a cycle begins");
    assert_eq!(scheduler.on_result(Ok("better".to_string())), TickDecision::Publish);
    assert_eq!(scheduler.current(), Some("better".to_string()));
    assert!(!scheduler.is_degraded());
}

#[test]
fn a_result_nobody_waits_for_is_ignored() {
    let mut scheduler = TickScheduler::new();
    assert_eq!(scheduler.on_result(Ok("s".to_string())), TickDecision::Ignored);
    assert_eq!(scheduler.current(), None);
    scheduler.start();
    assert_eq!(scheduler.on_result(Err(SandboxFault::GuestTrap)), TickDecision::Ignored);
    assert!(!scheduler.is_degraded());
    assert_eq!(scheduler.phase(), Phase::Running);
}

#[test]
fn a_stop_during_a_cycle_waits_for_its_end() {
    let mut queue: PendingInput<u8> = PendingInput::new();
    let mut scheduler = running();
    scheduler.begin_cycle(&mut queue).expect("a cycle begins");
    scheduler.request_stop();
    assert_eq!(scheduler.phase(), Phase::Running);
    assert_eq!(scheduler.on_result(Err(SandboxFault::GuestTrap)), TickDecision::RetryFresh);
    assert_eq!(scheduler.phase(), Phase::Running);
    assert_eq!(scheduler.on_result(Ok("last".to_string())), TickDecision::Publish);
    assert_eq!(scheduler.phase(), Phase::Stopped);
    assert_eq!(scheduler.current(), Some("last".to_string()));
    assert_eq!(scheduler.begin_cycle(&mut queue), None);
}

#[test]
fn exhausted_fuel_does_not_stop_the_loop() {
    let mut queue: PendingInput<u8> = PendingInput::new();
    let mut scheduler = running();
    let memory = vec![0u8; 64];
    let mut cycle = 0;
    while cycle < 3 {
        queue.append(cycle);
        assert_eq!(scheduler.begin_cycle(&mut queue), Some(vec![cycle]));
        let mut instance = GameInstance::load(1_000, 1);
        instance.begin_advance(memory.len(), 1).expect("the input fits");
        let first = instance.finish_advance(GuestExit::OutOfFuel, 0, &memory);
        assert_eq!(first, Err(SandboxFault::CpuExhausted));
        assert_eq!(scheduler.on_result(first), TickDecision::RetryFresh);
        let mut fresh = GameInstance::load(1_000, 1);
        fresh.begin_advance(memory.len(), 1).expect("the input fits");
        let second = fresh.finish_advance(GuestExit::OutOfFuel, 0, &memory);
        assert_eq!(second, Err(SandboxFault::CpuExhausted));
        assert_eq!(scheduler.on_result(second), TickDecision::HoldPrevious);
        assert_eq!(scheduler.phase(), Phase::Running);
        assert!(scheduler.is_degraded());
        assert_eq!(pause_after(2_000), 14_667);
        cycle += 1;
    }
}
