use rcc_core::membership::{status_report, CoordinatorCall, Membership};
use rcc_core::queue::PendingInput;
use rcc_core::registry::{
    CoordinatorService, ExecutorInfo, HealthState, HeartbeatAck, MonitorConfig, RegisterResponse,
    RegistryError,
};
use rcc_core::sandbox::SandboxFault;
use rcc_core::scheduler::TickScheduler;

#[test]
fn an_executor_registers_first_and_reports_afterwards() {
    let mut membership = Membership::new();
    assert_eq!(membership, Membership::Unregistered);
    assert_eq!(membership.next_call(), CoordinatorCall::Register);
    membership.on_registered(RegisterResponse { success: false });
    assert_eq!(membership.next_call(), CoordinatorCall::Register);
    membership.on_registered(RegisterResponse { success: true });
    assert_eq!(membership, Membership::Registered);
    assert_eq!(membership.next_call(), CoordinatorCall::Heartbeat);
    membership.on_heartbeat(Ok(HeartbeatAck {}));
    assert_eq!(membership.next_call(), CoordinatorCall::Heartbeat);
}

#[test]
fn an_unknown_executor_registers_again() {
    let mut membership = Membership::Registered;
    membership.on_heartbeat(Err(RegistryError::UnknownExecutor));
    assert_eq!(membership, Membership::Unregistered);
    assert_eq!(membership.next_call(), CoordinatorCall::Register);
}

#[test]
fn the_report_counts_one_instance_while_the_host_is_well() {
    let mut queue: PendingInput<u8> = PendingInput::new();
    let mut scheduler = TickScheduler::new();
    let idle = status_report("E1".to_string(), &scheduler, 7);
    assert_eq!(idle.id, "E1");
    assert_eq!(idle.cpu_usage_bits, 7);
    assert_eq!(idle.active_instances, 0);

    scheduler.start();
    assert_eq!(status_report("E1".to_string(), &scheduler, 0).active_instances, 1);

    scheduler.begin_cycle(&mut queue).expect("a cycle begins");
    scheduler.on_result(Err(SandboxFault::CpuExhausted));
    assert_eq!(status_report("E1".to_string(), &scheduler, 0).active_instances, 1);
    scheduler.on_result(Err(SandboxFault::CpuExhausted));
    assert_eq!(status_report("E1".to_string(), &scheduler, 0).active_instances, 0);

    scheduler.begin_cycle(&mut queue).expect("a cycle begins");
    scheduler.on_result(Ok("{}".to_string()));
    assert_eq!(status_report("E1".to_string(), &scheduler, 0).active_instances, 1);

    scheduler.request_stop();
    assert_eq!(status_report("E1".to_string(), &scheduler, 0).active_instances, 0);
}

#[test]
fn an_evicted_executor_finds_its_way_back() {
    let mut registry = CoordinatorService::new();
    let cfg = MonitorConfig::new(30, 90).expect("30 is shorter than 90");
    let mut membership = Membership::new();
    let scheduler = TickScheduler::new();

    let response = registry.register_executor(
        ExecutorInfo { id: "E1".to_string(), address: "10.0.0.5:9000".to_string(), max_memory_mb: 256 },
        0,
    );
    membership.on_registered(response);
    membership.on_heartbeat(registry.heartbeat(status_report("E1".to_string(), &scheduler, 0), 10));
    assert_eq!(membership.next_call(), CoordinatorCall::Heartbeat);

    assert_eq!(registry.sweep(101, &cfg).len(), 1);
    membership.on_heartbeat(registry.heartbeat(status_report("E1".to_string(), &scheduler, 0), 102));
    assert_eq!(membership.next_call(), CoordinatorCall::Register);

    let response = registry.register_executor(
        ExecutorInfo { id: "E1".to_string(), address: "10.0.0.5:9000".to_string(), max_memory_mb: 256 },
        103,
    );
    membership.on_registered(response);
    assert_eq!(membership.next_call(), CoordinatorCall::Heartbeat);
    assert_eq!(registry.health_of(&"E1".to_string()), Some(HealthState::Active));
    assert_eq!(registry.len(), 1);
}
