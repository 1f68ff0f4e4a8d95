//! The sandbox lifecycle, resource limits and execution errors.

use std::time::Duration;
use vudo_vm::error::SandboxError as ExecutionError;
use vudo_vm::limits::ResourceLimits;
use vudo_vm::sandbox::{
    validate_limits, validate_module_size, CapabilityGrant, CapabilityScope, CapabilityType, ExecutionRecord,
    SandboxCore, SandboxError, SandboxMetrics, SandboxState, DEFAULT_MAX_DURATION_SECS, DEFAULT_MAX_FUEL,
    DEFAULT_MEMORY_BYTES, MAX_MODULE_SIZE, MAX_SANDBOX_MEMORY,
};

const SECOND: u64 = 1_000_000_000;

fn new_core(wasm: &[u8]) -> SandboxCore {
    SandboxCore::new(wasm, [0u8; 32], DEFAULT_MEMORY_BYTES, true, DEFAULT_MAX_FUEL, 30 * SECOND, 7, 1000).unwrap()
}

fn ready(wasm: &[u8]) -> SandboxCore {
    let mut c = new_core(wasm);
    c.begin_initialize().unwrap();
    c.finish_initialize(Ok(())).unwrap();
    c
}

fn grant(cap: CapabilityType, expires_at: Option<u64>) -> CapabilityGrant {
    CapabilityGrant::new(1, cap, CapabilityScope::Global, [0u8; 32], [0u8; 32], 1000, expires_at, [0u8; 64])
}

#[test]
fn test_sandbox_error_display() {
    let errors = vec![
        (SandboxError::OutOfMemory, "Out of memory"),
        (SandboxError::CpuQuotaExceeded, "CPU quota exceeded"),
        (SandboxError::CapabilityDenied("test".to_string()), "Capability denied: test"),
        (SandboxError::WasmTrap("trap".to_string()), "WASM trap: trap"),
        (SandboxError::Timeout, "Execution timeout"),
        (SandboxError::InvalidModule("bad".to_string()), "Invalid module: bad"),
        (SandboxError::RuntimeError("err".to_string()), "Runtime error: err"),
        (SandboxError::FunctionNotFound("fn".to_string()), "Function not found: fn"),
    ];
    for (error, expected_msg) in errors {
        assert_eq!(error.message(), expected_msg);
    }
}

#[test]
fn test_sandbox_state_equality() {
    assert_eq!(SandboxState::Initializing, SandboxState::Initializing);
    assert_ne!(SandboxState::Initializing, SandboxState::Ready);
    assert_ne!(SandboxState::Running, SandboxState::Paused);
}

#[test]
fn test_sandbox_state_debug() {
    let state = SandboxState::Ready;
    let debug_str = format!("{:?}", state);
    assert_eq!(debug_str, "Ready");
    assert_eq!(state.name(), "Ready");
}

#[test]
fn test_capability_grant_validation() {
    let grant = CapabilityGrant {
        id: 1,
        capability: CapabilityType::ActuatorLog,
        scope: CapabilityScope::Sandboxed,
        granter: [0u8; 32],
        grantee: [1u8; 32],
        granted_at: 1000,
        expires_at: Some(2000),
        revoked: false,
        signature: [0u8; 64],
    };
    let mut revoked_grant = grant.clone();
    revoked_grant.revoked = true;
    assert!(!revoked_grant.is_valid());
}

#[test]
fn core_expired_capability() {
    let mut sandbox = new_core(b"\0asm");
    sandbox.grant_capability(grant(CapabilityType::NetworkConnect, Some(1001)));
    assert!(!sandbox.has_capability(CapabilityType::NetworkConnect));
}

#[test]
fn core_grant_capability() {
    let mut sandbox = new_core(b"\0asm");
    assert!(!sandbox.has_capability(CapabilityType::NetworkConnect));
    sandbox.grant_capability(grant(CapabilityType::NetworkConnect, None));
    assert!(sandbox.has_capability(CapabilityType::NetworkConnect));
}

#[test]
fn test_sandbox_empty_wasm_error() {
    match SandboxCore::new(&[], [0u8; 32], DEFAULT_MEMORY_BYTES, true, DEFAULT_MAX_FUEL, SECOND, 1, 0) {
        Err(SandboxError::InvalidModule(msg)) => assert_eq!(msg, "WASM module is empty"),
        _ => panic!("Expected InvalidModule error"),
    }
}

#[test]
fn test_sandbox_oversized_wasm_error() {
    let wasm = vec![0u8; MAX_MODULE_SIZE + 1];
    match SandboxCore::new(&wasm, [0u8; 32], DEFAULT_MEMORY_BYTES, true, DEFAULT_MAX_FUEL, SECOND, 1, 0) {
        Err(SandboxError::InvalidModule(msg)) => assert_eq!(msg, "WASM module size 104857601 exceeds maximum 104857600"),
        _ => panic!("Expected InvalidModule error"),
    }
}

#[test]
fn test_resource_limits_zero_max_fuel() {
    match validate_limits(DEFAULT_MEMORY_BYTES, true, 0) {
        Err(SandboxError::InvalidModule(msg)) => assert!(msg.contains("max_fuel")),
        _ => panic!("Expected InvalidModule error"),
    }
}

#[test]
fn test_sandbox_double_initialize() {
    let mut sandbox = ready(b"\0asm");
    let r = sandbox.begin_initialize();
    assert!(matches!(r, Err(SandboxError::RuntimeError(ref m)) if m == "Can only initialize from Initializing state"));
    assert_eq!(sandbox.get_state(), SandboxState::Ready);
}

#[test]
fn test_sandbox_invoke_from_initializing_state() {
    let sandbox = new_core(b"\0asm");
    match sandbox.begin_invoke() {
        Err(SandboxError::RuntimeError(msg)) => assert_eq!(msg, "Cannot invoke from state Initializing"),
        _ => panic!("Expected RuntimeError"),
    }
}

#[test]
fn test_sandbox_invoke_from_terminated_state() {
    let mut sandbox = ready(b"\0asm");
    sandbox.terminate();
    assert_eq!(sandbox.get_state(), SandboxState::Terminated);
    match sandbox.begin_invoke() {
        Err(SandboxError::RuntimeError(msg)) => assert_eq!(msg, "Cannot invoke from state Terminated"),
        _ => panic!("Expected RuntimeError"),
    }
}

#[test]
fn core_terminate() {
    let mut sandbox = ready(b"\0asm");
    sandbox.terminate();
    assert_eq!(sandbox.get_state(), SandboxState::Terminated);
    assert!(sandbox.begin_initialize().is_err());
    sandbox.finish_refuel(Ok(())).unwrap();
    assert_eq!(sandbox.get_state(), SandboxState::Terminated);
}

#[test]
fn core_metrics_initial() {
    let sandbox = new_core(b"\0asm");
    let m = sandbox.metrics();
    assert_eq!(m.sandbox_id, 7);
    assert_eq!(m.execution_count, 0);
    assert_eq!(m.total_fuel_consumed, 0);
    assert_eq!(m.trap_count, 0);
    assert_eq!(m.last_updated, 1000);
}

#[test]
fn test_constants() {
    let default_cpu_quota: f64 = 0.1;
    assert!((0.0..=1.0).contains(&default_cpu_quota));
    assert_eq!(DEFAULT_MEMORY_BYTES, 67_108_864);
    assert_eq!(DEFAULT_MAX_FUEL, 1_000_000_000);
    assert_eq!(DEFAULT_MAX_DURATION_SECS, 30);
    assert_eq!(MAX_SANDBOX_MEMORY, 1_073_741_824);
    assert_eq!(MAX_MODULE_SIZE, 104_857_600);
}

// ─── further cases ────────────────────────────────────────────────────────

#[test]
fn sandbox_new_starts_initializing() {
    let c = new_core(b"abc");
    assert_eq!(c.get_state(), SandboxState::Initializing);
    assert_eq!(c.id, 7);
    assert_eq!(c.wasm_module, b"abc".to_vec());
    assert_eq!(c.created_at, 1000);
    assert_eq!(c.fuel_consumed, 0);
    assert!(c.last_executed.is_none());
    assert!(c.capabilities.is_empty());
}

#[test]
fn sandbox_limit_messages_in_order() {
    match validate_limits(MAX_SANDBOX_MEMORY + 1, false, 0) {
        Err(SandboxError::InvalidModule(msg)) => assert_eq!(msg, "Memory limit 1073741825 exceeds maximum 1073741824"),
        _ => panic!(),
    }
    match validate_limits(MAX_SANDBOX_MEMORY, false, 0) {
        Err(SandboxError::InvalidModule(msg)) => assert_eq!(msg, "CPU quota must be between 0.0 and 1.0"),
        _ => panic!(),
    }
    assert!(validate_limits(MAX_SANDBOX_MEMORY, true, 1).is_ok());
    assert!(validate_module_size(&[1]).is_ok());
    assert!(SandboxCore::new(b"x", [0u8; 32], 0, true, 0, 0, 1, 0).is_err());
}

#[test]
fn sandbox_compile_failure_fails() {
    let mut c = new_core(b"junk");
    c.begin_initialize().unwrap();
    match c.finish_initialize(Err("bad magic".to_string())) {
        Err(SandboxError::InvalidModule(msg)) => assert_eq!(msg, "Failed to compile module: bad magic"),
        _ => panic!(),
    }
    assert_eq!(c.get_state(), SandboxState::Failed);
    assert!(c.begin_invoke().is_err());
}

#[test]
fn sandbox_successful_run() {
    let mut c = ready(b"0123456789");
    c.begin_invoke().unwrap();
    c.start_run();
    assert_eq!(c.get_state(), SandboxState::Running);
    let rec = c.finish_run(Ok(()), 1000, 400, 5, 2000);
    assert!(rec.success);
    assert!(rec.error.is_none());
    assert_eq!(rec.fuel_consumed, 600);
    assert_eq!(rec.memory_used, 10);
    assert_eq!(c.get_state(), SandboxState::Ready);
    assert_eq!(c.fuel_consumed, 600);
    assert_eq!(c.memory_peak, 10);
    assert_eq!(c.last_executed, Some(2000));
    let m = c.metrics();
    assert_eq!(m.execution_count, 1);
    assert_eq!(m.total_fuel_consumed, 600);
    assert_eq!(m.total_duration_nanos, 5);
    assert_eq!(m.trap_count, 0);
    assert_eq!(m.peak_memory, 10);
    assert_eq!(m.last_updated, 2000);
}

#[test]
fn sandbox_out_of_fuel_pauses_and_refuel_resumes() {
    let mut c = ready(b"x");
    c.start_run();
    let rec = c.finish_run(Err("all fuel consumed".to_string()), 100, 0, 5, 2000);
    assert!(!rec.success);
    assert_eq!(rec.error.as_deref(), Some("Out of fuel"));
    assert_eq!(c.get_state(), SandboxState::Paused);
    assert_eq!(c.metrics().trap_count, 1);
    assert_eq!(SandboxCore::refuel_amount(0, 1_000_000), 1_000_000);
    assert_eq!(SandboxCore::refuel_amount(u64::MAX - 1, 5), u64::MAX);
    c.finish_refuel(Ok(())).unwrap();
    assert_eq!(c.get_state(), SandboxState::Ready);
    assert!(c.begin_invoke().is_ok());
}

#[test]
fn sandbox_trap_and_timeout_fail() {
    let mut c = ready(b"x");
    c.start_run();
    let rec = c.finish_run(Err("unreachable".to_string()), 100, 50, 5, 2000);
    assert_eq!(rec.error.as_deref(), Some("WASM trap: unreachable"));
    assert_eq!(c.get_state(), SandboxState::Failed);

    let mut c = ready(b"x");
    c.start_run();
    let rec = c.finish_run(Err("interrupt".to_string()), 100, 0, 30 * SECOND, 2000);
    assert_eq!(rec.error.as_deref(), Some("Timeout: interrupt"));
    assert_eq!(c.get_state(), SandboxState::Failed);
}

#[test]
fn sandbox_fuel_before_below_after_counts_zero() {
    let mut c = ready(b"x");
    c.start_run();
    let rec = c.finish_run(Ok(()), 10, 20, 1, 1);
    assert_eq!(rec.fuel_consumed, 0);
    assert_eq!(c.fuel_consumed, 0);
}

#[test]
fn sandbox_refuel_failure_changes_nothing() {
    let mut c = ready(b"x");
    c.start_run();
    c.finish_run(Err("x".to_string()), 10, 0, 1, 1);
    match c.finish_refuel(Err("no fuel".to_string())) {
        Err(SandboxError::RuntimeError(msg)) => assert_eq!(msg, "Failed to refuel: no fuel"),
        _ => panic!(),
    }
    assert_eq!(c.get_state(), SandboxState::Paused);
}

#[test]
fn sandbox_instantiation_failure() {
    let mut c = ready(b"x");
    match c.fail_instantiation("unknown import") {
        SandboxError::RuntimeError(msg) => assert_eq!(msg, "Failed to instantiate module: unknown import"),
        _ => panic!(),
    }
    assert_eq!(c.get_state(), SandboxState::Failed);
}

#[test]
fn sandbox_capabilities_by_kind_only() {
    let mut c = new_core(b"x");
    c.grant_capability(grant(CapabilityType::Unrestricted, None));
    assert!(!c.has_capability_at(CapabilityType::NetworkConnect, 5000));
    assert!(c.has_capability_at(CapabilityType::Unrestricted, 5000));
    c.grant_capability(grant(CapabilityType::SensorTime, Some(3000)));
    assert!(c.has_capability_at(CapabilityType::SensorTime, 2999));
    assert!(!c.has_capability_at(CapabilityType::SensorTime, 3000));
}

#[test]
fn sandbox_metrics_update_saturates_and_tracks_peak() {
    let mut m = SandboxMetrics::new(1, 0);
    let rec = ExecutionRecord { success: false, fuel_consumed: u64::MAX, duration_nanos: 3, memory_used: 9, error: None };
    m.update(&rec, 5);
    m.update(&rec, 6);
    assert_eq!(m.execution_count, 2);
    assert_eq!(m.total_fuel_consumed, u64::MAX);
    assert_eq!(m.trap_count, 2);
    assert_eq!(m.peak_memory, 9);
    assert_eq!(m.last_updated, 6);
}

#[test]
fn resource_limits_presets() {
    let d = ResourceLimits::default();
    assert_eq!(d.memory_bytes, 16 * 1024 * 1024);
    assert_eq!(d.cpu_quota, 1_000_000);
    assert_eq!(d.max_fuel, 1_000_000);
    assert_eq!(d.max_duration_nanos, 10_000_000_000);
    assert_eq!(d.max_duration(), Duration::from_secs(10));
    assert_eq!(d.max_table_elements, 10_000);
    assert_eq!(d.max_instances, 10);
    let t = ResourceLimits::for_testing();
    assert_eq!(t.memory_bytes, 1024 * 1024 * 1024);
    assert_eq!(t.max_duration(), Duration::from_secs(300));
    let r = ResourceLimits::restrictive();
    assert_eq!(r.memory_bytes, 1024 * 1024);
    assert_eq!(r.max_instances, 1);
    assert_eq!(r.max_duration(), Duration::from_secs(1));
    let n = ResourceLimits::new(1, 2, 3, 4_000_000, 5, 6);
    assert_eq!((n.memory_bytes, n.cpu_quota, n.max_fuel, n.max_table_elements, n.max_instances), (1, 2, 3, 5, 6));
    assert_eq!(n.max_duration(), Duration::from_millis(4));
}

#[test]
fn execution_error_messages() {
    assert_eq!(ExecutionError::OutOfMemory.message(), "Out of memory: allocation exceeded limit");
    assert_eq!(ExecutionError::CpuQuotaExceeded { consumed: 5, limit: 3 }.message(),
        "CPU quota exceeded: consumed 5, limit 3");
    assert_eq!(ExecutionError::CapabilityDenied { capability: "Net".to_string(), reason: "no".to_string() }.message(),
        "Capability denied: Net - no");
    assert_eq!(ExecutionError::WasmTrap("t".to_string()).message(), "WASM trap: t");
    assert_eq!(ExecutionError::Timeout { max_duration: Duration::from_secs(2) }.message(),
        "Execution timeout: exceeded 2s");
    assert_eq!(ExecutionError::InvalidModule("m".to_string()).message(), "Invalid module: m");
}

#[test]
fn test_resource_limits_validation() {
    assert!(validate_limits(MAX_SANDBOX_MEMORY + 1, true, DEFAULT_MAX_FUEL).is_err());
    let cpu_quota: f64 = 1.5;
    assert!(validate_limits(DEFAULT_MEMORY_BYTES, (0.0..=1.0).contains(&cpu_quota), DEFAULT_MAX_FUEL).is_err());
}

#[test]
fn test_resource_limits_default_values() {
    let cpu_quota: f64 = 0.1;
    assert_eq!(DEFAULT_MEMORY_BYTES, 67_108_864);
    assert_eq!(DEFAULT_MAX_FUEL, 1_000_000_000);
    assert_eq!(Duration::from_secs(DEFAULT_MAX_DURATION_SECS), Duration::from_secs(30));
    assert!(validate_limits(DEFAULT_MEMORY_BYTES, (0.0..=1.0).contains(&cpu_quota), DEFAULT_MAX_FUEL).is_ok());
    let core = SandboxCore::new(b"\0asm", [0u8; 32], DEFAULT_MEMORY_BYTES, true, DEFAULT_MAX_FUEL,
        DEFAULT_MAX_DURATION_SECS * SECOND, 1, 0);
    assert!(core.is_ok());
}

#[test]
fn core_invocation_errors() {
    match SandboxCore::module_not_initialized() {
        SandboxError::RuntimeError(msg) => assert_eq!(msg, "Module not initialized"),
        _ => panic!("Expected RuntimeError"),
    }
    match SandboxCore::function_not_found("missing") {
        SandboxError::FunctionNotFound(name) => assert_eq!(name, "missing"),
        _ => panic!("Expected FunctionNotFound"),
    }
}

#[test]
fn core_run_accounting_cumulative() {
    let mut c = ready(b"0123");
    let mut total_fuel = 0u64;
    let outcomes: Vec<(Result<(), String>, u64, u64)> = vec![
        (Ok(()), 1000, 700),
        (Err("unreachable".to_string()), 700, 650),
    ];
    for (i, (call, before, after)) in outcomes.into_iter().enumerate() {
        let m = c.metrics();
        c.begin_invoke().unwrap();
        c.start_run();
        let ok = call.is_ok();
        let rec = c.finish_run(call, before, after, 1, 3000 + i as u64);
        total_fuel += rec.fuel_consumed;
        let m2 = c.metrics();
        assert_eq!(m2.execution_count, m.execution_count + 1);
        assert_eq!(m2.total_fuel_consumed, m.total_fuel_consumed + rec.fuel_consumed);
        assert_eq!(m2.trap_count, m.trap_count + if rec.success { 0 } else { 1 });
        assert_eq!(rec.success, ok);
        assert_eq!(rec.success, rec.error.is_none());
        if rec.success {
            assert_eq!(c.get_state(), SandboxState::Ready);
        } else {
            assert!(matches!(c.get_state(), SandboxState::Paused | SandboxState::Failed));
        }
    }
    assert_eq!(c.fuel_consumed, total_fuel);
    assert_eq!(total_fuel, 350);
    assert_eq!(c.get_state(), SandboxState::Failed);
}

#[test]
fn core_initialize_compiles_module() {
    let engine = wasmtime::Engine::default();
    let mut c = new_core(b"\0asm\x01\0\0\0");
    assert!(c.initialize(&engine).is_ok());
    assert_eq!(c.get_state(), SandboxState::Ready);
    match c.initialize(&engine) {
        Err(SandboxError::RuntimeError(msg)) => assert_eq!(msg, "Can only initialize from Initializing state"),
        _ => panic!("Expected RuntimeError"),
    }
    assert_eq!(c.get_state(), SandboxState::Ready);

    let mut bad = new_core(b"junk");
    match bad.initialize(&engine) {
        Err(SandboxError::InvalidModule(msg)) => assert!(msg.starts_with("Failed to compile module: ")),
        _ => panic!("Expected InvalidModule error"),
    }
    assert_eq!(bad.get_state(), SandboxState::Failed);
}
