//! The sandbox lifecycle.
//!
//! A sandbox holds a guest module, its owner, its capability grants and its
//! accounting, and moves through a fixed set of states:
//! Initializing → Ready → Running → Ready, Paused or Failed; Paused → Ready
//! on refuel; any state → Terminated. `SandboxCore` takes every decision of
//! that lifecycle: which calls a state admits, what an execution's outcome
//! makes of the state, and what is counted. The WebAssembly engine itself
//! is driven by the caller, which reports each step's outcome here.

use vstd::prelude::*;
use vstd::string::*;
pub use crate::capability::{CapabilityType, CapabilityScope, CapabilityGrant};
use crate::capability::grant_valid_at;
use crate::clock::current_timestamp;
use crate::text::{decimal, text_with_number, join2};

verus! {

/// Default memory limit: 64 MiB.
pub const DEFAULT_MEMORY_BYTES: u64 = 67_108_864;

/// Default fuel limit: one billion units.
pub const DEFAULT_MAX_FUEL: u64 = 1_000_000_000;

/// Default wall-clock limit, in seconds.
pub const DEFAULT_MAX_DURATION_SECS: u64 = 30;

/// Largest memory limit a sandbox may have: 1 GiB.
pub const MAX_SANDBOX_MEMORY: u64 = 1_073_741_824;

/// Largest guest module, in bytes: 100 MiB.
pub const MAX_MODULE_SIZE: usize = 104_857_600;

/// The lifecycle state of a sandbox.
#[derive(Debug, Clone, Copy, PartialEq, Eq, Structural)]
pub enum SandboxState {
    /// Loading and validating the module.
    Initializing,
    /// Validated, awaiting execution.
    Ready,
    /// Executing.
    Running,
    /// Out of fuel, awaiting refuel.
    Paused,
    /// Shut down.
    Terminated,
    /// Stopped by an unrecoverable error.
    Failed,
}

/// The name of a state, as its `Debug` form writes it.
pub open spec fn state_name(s: SandboxState) -> Seq<char> {
    match s {
        SandboxState::Initializing => "Initializing"@,
        SandboxState::Ready => "Ready"@,
        SandboxState::Running => "Running"@,
        SandboxState::Paused => "Paused"@,
        SandboxState::Terminated => "Terminated"@,
        SandboxState::Failed => "Failed"@,
    }
}

impl SandboxState {
    /// The name of this state, as its `Debug` form writes it.
    pub fn name(&self) -> (r: &'static str)
        ensures
            r@ == state_name(*self),
    {
        match self {
            SandboxState::Initializing => "Initializing",
            SandboxState::Ready => "Ready",
            SandboxState::Running => "Running",
            SandboxState::Paused => "Paused",
            SandboxState::Terminated => "Terminated",
            SandboxState::Failed => "Failed",
        }
    }
}

/// Failures of sandbox operations.
#[derive(Debug, Clone)]
pub enum SandboxError {
    OutOfMemory,
    CpuQuotaExceeded,
    CapabilityDenied(String),
    WasmTrap(String),
    Timeout,
    InvalidModule(String),
    RuntimeError(String),
    FunctionNotFound(String),
}

/// The text of an error, as its display shows it.
pub open spec fn sandbox_error_text(e: SandboxError) -> Seq<char> {
    match e {
        SandboxError::OutOfMemory => "Out of memory"@,
        SandboxError::CpuQuotaExceeded => "CPU quota exceeded"@,
        SandboxError::CapabilityDenied(m) => "Capability denied: "@ + m@,
        SandboxError::WasmTrap(m) => "WASM trap: "@ + m@,
        SandboxError::Timeout => "Execution timeout"@,
        SandboxError::InvalidModule(m) => "Invalid module: "@ + m@,
        SandboxError::RuntimeError(m) => "Runtime error: "@ + m@,
        SandboxError::FunctionNotFound(m) => "Function not found: "@ + m@,
    }
}

impl SandboxError {
    /// The message of this error.
    pub fn message(&self) -> (s: String)
        ensures
            s@ == sandbox_error_text(*self),
    {
        match self {
            SandboxError::OutOfMemory => {
                proof { reveal_strlit("Out of memory"); }
                String::from_str("Out of memory")
            },
            SandboxError::CpuQuotaExceeded => {
                proof { reveal_strlit("CPU quota exceeded"); }
                String::from_str("CPU quota exceeded")
            },
            SandboxError::CapabilityDenied(m) => join2("Capability denied: ", m.as_str()),
            SandboxError::WasmTrap(m) => join2("WASM trap: ", m.as_str()),
            SandboxError::Timeout => {
                proof { reveal_strlit("Execution timeout"); }
                String::from_str("Execution timeout")
            },
            SandboxError::InvalidModule(m) => join2("Invalid module: ", m.as_str()),
            SandboxError::RuntimeError(m) => join2("Runtime error: ", m.as_str()),
            SandboxError::FunctionNotFound(m) => join2("Function not found: ", m.as_str()),
        }
    }
}

/// `r` is the error `InvalidModule` with the message `msg`.
pub open spec fn invalid_module<T>(r: Result<T, SandboxError>, msg: Seq<char>) -> bool {
    r matches Err(SandboxError::InvalidModule(m)) && m@ == msg
}

/// `e` is the error `RuntimeError` with the message `msg`.
pub open spec fn runtime_error(e: SandboxError, msg: Seq<char>) -> bool {
    e matches SandboxError::RuntimeError(m) && m@ == msg
}

// ─── validation ───────────────────────────────────────────────────────────

/// Checks the size of a guest module: not empty, and at most
/// `MAX_MODULE_SIZE` bytes.
pub fn validate_module_size(wasm: &[u8]) -> (r: Result<(), SandboxError>)
    ensures
        wasm@.len() == 0 ==> invalid_module(r, "WASM module is empty"@),
        wasm@.len() > MAX_MODULE_SIZE ==> invalid_module(r, "WASM module size "@
            + decimal(wasm@.len()) + " exceeds maximum 104857600"@),
        0 < wasm@.len() <= MAX_MODULE_SIZE ==> r is Ok,
{
    if wasm.len() == 0 {
        proof { reveal_strlit("WASM module is empty"); }
        return Err(SandboxError::InvalidModule(String::from_str("WASM module is empty")));
    }
    if wasm.len() > MAX_MODULE_SIZE {
        let mut m = text_with_number("WASM module size ", wasm.len() as u64);
        m.append(" exceeds maximum 104857600");
        return Err(SandboxError::InvalidModule(m));
    }
    Ok(())
}

/// Checks resource limits: memory at most `MAX_SANDBOX_MEMORY`, a CPU quota
/// between 0.0 and 1.0 (`cpu_quota_in_range` says whether it is), and some
/// fuel; the first rule broken is reported.
pub fn validate_limits(memory_bytes: u64, cpu_quota_in_range: bool, max_fuel: u64) -> (r: Result<(), SandboxError>)
    ensures
        memory_bytes > MAX_SANDBOX_MEMORY ==> invalid_module(r, "Memory limit "@ + decimal(memory_bytes as nat)
            + " exceeds maximum 1073741824"@),
        memory_bytes <= MAX_SANDBOX_MEMORY && !cpu_quota_in_range ==> invalid_module(r,
            "CPU quota must be between 0.0 and 1.0"@),
        memory_bytes <= MAX_SANDBOX_MEMORY && cpu_quota_in_range && max_fuel == 0 ==> invalid_module(r,
            "max_fuel must be greater than 0"@),
        memory_bytes <= MAX_SANDBOX_MEMORY && cpu_quota_in_range && max_fuel > 0 ==> r is Ok,
{
    if memory_bytes > MAX_SANDBOX_MEMORY {
        let mut m = text_with_number("Memory limit ", memory_bytes);
        m.append(" exceeds maximum 1073741824");
        return Err(SandboxError::InvalidModule(m));
    }
    if !cpu_quota_in_range {
        proof { reveal_strlit("CPU quota must be between 0.0 and 1.0"); }
        return Err(SandboxError::InvalidModule(String::from_str("CPU quota must be between 0.0 and 1.0")));
    }
    if max_fuel == 0 {
        proof { reveal_strlit("max_fuel must be greater than 0"); }
        return Err(SandboxError::InvalidModule(String::from_str("max_fuel must be greater than 0")));
    }
    Ok(())
}

// ─── executions and metrics ───────────────────────────────────────────────

/// What one execution came to, apart from the values it returned.
#[derive(Debug, Clone)]
pub struct ExecutionRecord {
    pub success: bool,
    pub fuel_consumed: u64,
    pub duration_nanos: u64,
    pub memory_used: u64,
    pub error: Option<String>,
}

/// `a + b`, held at `u64::MAX`.
pub open spec fn sat_add(a: u64, b: u64) -> u64 {
    if a + b > u64::MAX { u64::MAX } else { (a + b) as u64 }
}

/// `a - b`, held at 0.
pub open spec fn sat_sub(a: u64, b: u64) -> u64 {
    if a < b { 0 } else { (a - b) as u64 }
}

/// The larger of two numbers.
pub open spec fn max_u64(a: u64, b: u64) -> u64 {
    if a >= b { a } else { b }
}

/// Totals over the executions of a sandbox, for billing and analysis.
#[derive(Debug, Clone, Copy, PartialEq, Eq, Structural)]
pub struct SandboxMetrics {
    pub sandbox_id: u64,
    pub execution_count: u64,
    pub total_fuel_consumed: u64,
    pub total_duration_nanos: u64,
    pub peak_memory: u64,
    pub trap_count: u64,
    pub last_updated: u64,
}

/// The metrics after recording `rec` at Unix time `now`: one more
/// execution, its fuel and duration added, the memory peak raised to its
/// use, one more trap where it failed. Totals are held at `u64::MAX`.
pub open spec fn metrics_after(m: SandboxMetrics, rec: ExecutionRecord, now: u64) -> SandboxMetrics {
    SandboxMetrics {
        sandbox_id: m.sandbox_id,
        execution_count: sat_add(m.execution_count, 1),
        total_fuel_consumed: sat_add(m.total_fuel_consumed, rec.fuel_consumed),
        total_duration_nanos: sat_add(m.total_duration_nanos, rec.duration_nanos),
        peak_memory: max_u64(m.peak_memory, rec.memory_used),
        trap_count: if rec.success { m.trap_count } else { sat_add(m.trap_count, 1) },
        last_updated: now,
    }
}

impl SandboxMetrics {
    /// Metrics of sandbox `sandbox_id` with nothing recorded, stamped `now`.
    pub fn new(sandbox_id: u64, now: u64) -> (m: Self)
        ensures
            m == (SandboxMetrics { sandbox_id, execution_count: 0, total_fuel_consumed: 0,
                total_duration_nanos: 0, peak_memory: 0, trap_count: 0, last_updated: now }),
    {
        SandboxMetrics { sandbox_id, execution_count: 0, total_fuel_consumed: 0, total_duration_nanos: 0,
            peak_memory: 0, trap_count: 0, last_updated: now }
    }

    /// Records execution `rec` at Unix time `now` (see `metrics_after`).
    pub fn update(&mut self, rec: &ExecutionRecord, now: u64)
        ensures
            *final(self) == metrics_after(*old(self), *rec, now),
    {
        self.execution_count = self.execution_count.saturating_add(1);
        self.total_fuel_consumed = self.total_fuel_consumed.saturating_add(rec.fuel_consumed);
        self.total_duration_nanos = self.total_duration_nanos.saturating_add(rec.duration_nanos);
        if rec.memory_used > self.peak_memory {
            self.peak_memory = rec.memory_used;
        }
        if !rec.success {
            self.trap_count = self.trap_count.saturating_add(1);
        }
        self.last_updated = now;
    }
}

// ─── the lifecycle ────────────────────────────────────────────────────────

/// Whether a sandbox in state `s` may be initialized.
pub open spec fn can_initialize(s: SandboxState) -> bool {
    s == SandboxState::Initializing
}

/// Whether a sandbox in state `s` may run a function.
pub open spec fn can_invoke(s: SandboxState) -> bool {
    s == SandboxState::Ready || s == SandboxState::Paused
}

/// The state an execution leaves: Ready where the call returned; where it
/// failed, Failed once the time limit was reached, else Paused where the
/// fuel ran out, else Failed.
pub open spec fn state_after_run(call_ok: bool, duration_nanos: u64, max_duration_nanos: u64, fuel_after: u64) -> SandboxState {
    if call_ok {
        SandboxState::Ready
    } else if duration_nanos >= max_duration_nanos {
        SandboxState::Failed
    } else if fuel_after == 0 {
        SandboxState::Paused
    } else {
        SandboxState::Failed
    }
}

/// The error text an execution reports: none where the call returned;
/// otherwise "Timeout: ", "Out of fuel" or "WASM trap: " as
/// `state_after_run` decides, with the engine's message.
pub open spec fn run_error_text(call_ok: bool, engine_error: Seq<char>, duration_nanos: u64,
    max_duration_nanos: u64, fuel_after: u64) -> Option<Seq<char>> {
    if call_ok {
        None
    } else if duration_nanos >= max_duration_nanos {
        Some("Timeout: "@ + engine_error)
    } else if fuel_after == 0 {
        Some("Out of fuel"@)
    } else {
        Some("WASM trap: "@ + engine_error)
    }
}

/// The text of an optional error.
pub open spec fn opt_text(e: Option<String>) -> Option<Seq<char>> {
    match e {
        Some(s) => Some(s@),
        None => None,
    }
}

/// The state after refuelling: a paused sandbox is ready again; any other
/// state stays.
pub open spec fn state_after_refuel(s: SandboxState) -> SandboxState {
    if s == SandboxState::Paused { SandboxState::Ready } else { s }
}

/// Whether some grant in `grants` is for `cap` and valid at `now`.
pub open spec fn grants_include(grants: Seq<CapabilityGrant>, cap: CapabilityType, now: u64) -> bool {
    exists|i: int| 0 <= i < grants.len() && (#[trigger] grants[i]).capability == cap && grant_valid_at(grants[i], now)
}

#[verifier::external_type_specification]
#[verifier::external_body]
pub struct ExEngine(wasmtime::Engine);

#[verifier::external_type_specification]
#[verifier::external_body]
pub struct ExModule(wasmtime::Module);

/// `Module::new`: compiles the WebAssembly bytes `wasm` for `engine`, or
/// the text of the compiler's error. Nothing is claimed of the outcome:
/// whether bytes compile depends on the engine's configuration as well as
/// on the bytes, and the message is the compiler's.
#[verifier::external_body]
fn compile_module(engine: &wasmtime::Engine, wasm: &[u8]) -> (r: Result<wasmtime::Module, String>) {
    wasmtime::Module::new(engine, wasm).map_err(|e| e.to_string())
}

/// A sandbox's state and accounting, apart from the engine.
#[derive(Debug, Clone)]
pub struct SandboxCore {
    pub id: u64,
    pub owner: [u8; 32],
    pub wasm_module: Vec<u8>,
    pub capabilities: Vec<CapabilityGrant>,
    pub state: SandboxState,
    pub created_at: u64,
    pub last_executed: Option<u64>,
    pub fuel_consumed: u64,
    pub memory_peak: u64,
    pub max_duration_nanos: u64,
    pub metrics: SandboxMetrics,
}

impl SandboxCore {
    /// A new sandbox `id` for module `wasm`, owned by `owner`, created at
    /// Unix time `now`, in state Initializing with nothing counted and no
    /// grants. The module size is checked first (see
    /// `validate_module_size`), then the limits (see `validate_limits`).
    pub fn new(wasm: &[u8], owner: [u8; 32], memory_bytes: u64, cpu_quota_in_range: bool, max_fuel: u64,
        max_duration_nanos: u64, id: u64, now: u64) -> (r: Result<Self, SandboxError>)
        ensures
            wasm@.len() == 0 ==> invalid_module(r, "WASM module is empty"@),
            wasm@.len() > MAX_MODULE_SIZE ==> invalid_module(r,
                "WASM module size "@ + decimal(wasm@.len()) + " exceeds maximum 104857600"@),
            0 < wasm@.len() <= MAX_MODULE_SIZE && memory_bytes > MAX_SANDBOX_MEMORY ==> invalid_module(r,
                "Memory limit "@ + decimal(memory_bytes as nat) + " exceeds maximum 1073741824"@),
            0 < wasm@.len() <= MAX_MODULE_SIZE && memory_bytes <= MAX_SANDBOX_MEMORY && !cpu_quota_in_range ==>
                invalid_module(r, "CPU quota must be between 0.0 and 1.0"@),
            0 < wasm@.len() <= MAX_MODULE_SIZE && memory_bytes <= MAX_SANDBOX_MEMORY && cpu_quota_in_range
                && max_fuel == 0 ==> invalid_module(r, "max_fuel must be greater than 0"@),
            r is Ok <==> 0 < wasm@.len() <= MAX_MODULE_SIZE && memory_bytes <= MAX_SANDBOX_MEMORY
                && cpu_quota_in_range && max_fuel > 0,
            r matches Ok(s) ==> s.id == id && s.owner == owner && s.wasm_module@ == wasm@
                && s.capabilities@.len() == 0 && s.state == SandboxState::Initializing && s.created_at == now
                && s.last_executed is None && s.fuel_consumed == 0 && s.memory_peak == 0
                && s.max_duration_nanos == max_duration_nanos
                && s.metrics == SandboxMetrics::new_spec(id, now),
    {
        match validate_module_size(wasm) {
            Ok(()) => {},
            Err(e) => { return Err(e); },
        }
        match validate_limits(memory_bytes, cpu_quota_in_range, max_fuel) {
            Ok(()) => {},
            Err(e) => { return Err(e); },
        }
        Ok(SandboxCore {
            id,
            owner,
            wasm_module: vstd::slice::slice_to_vec(wasm),
            capabilities: Vec::new(),
            state: SandboxState::Initializing,
            created_at: now,
            last_executed: None,
            fuel_consumed: 0,
            memory_peak: 0,
            max_duration_nanos,
            metrics: SandboxMetrics::new(id, now),
        })
    }

    /// The current state.
    pub fn get_state(&self) -> (s: SandboxState)
        ensures
            s == self.state,
    {
        self.state
    }

    /// The current metrics.
    pub fn metrics(&self) -> (m: SandboxMetrics)
        ensures
            m == self.metrics,
    {
        self.metrics
    }

    /// Checks that the sandbox may be initialized: only from Initializing.
    pub fn begin_initialize(&self) -> (r: Result<(), SandboxError>)
        ensures
            r is Ok <==> can_initialize(self.state),
            r matches Err(e) ==> runtime_error(e, "Can only initialize from Initializing state"@),
    {
        if self.state != SandboxState::Initializing {
            proof { reveal_strlit("Can only initialize from Initializing state"); }
            return Err(SandboxError::RuntimeError(String::from_str("Can only initialize from Initializing state")));
        }
        Ok(())
    }

    /// Takes in the outcome of compiling the module: Ready where it
    /// compiled; Failed, with "Failed to compile module: " and the
    /// compiler's message, where it did not.
    pub fn finish_initialize(&mut self, compiled: Result<(), String>) -> (r: Result<(), SandboxError>)
        requires
            can_initialize(old(self).state),
        ensures
            compiled is Ok ==> r is Ok && final(self).state == SandboxState::Ready,
            compiled matches Err(msg) ==> final(self).state == SandboxState::Failed
                && invalid_module(r, "Failed to compile module: "@ + msg@),
            *final(self) == (SandboxCore { state: final(self).state, ..*old(self) }),
    {
        match compiled {
            Ok(()) => {
                self.state = SandboxState::Ready;
                Ok(())
            },
            Err(msg) => {
                self.state = SandboxState::Failed;
                Err(SandboxError::InvalidModule(join2("Failed to compile module: ", msg.as_str())))
            },
        }
    }

    /// Compiles the module for `engine`: from Initializing only (else the
    /// refusal of `begin_initialize`, nothing changed); then Ready with the
    /// compiled module where it compiles, and Failed, with "Failed to
    /// compile module: " and the compiler's message, where it does not (see
    /// `finish_initialize`). Whether the bytes compile is the compiler's
    /// answer and is not stated.
    pub fn initialize(&mut self, engine: &wasmtime::Engine) -> (r: Result<wasmtime::Module, SandboxError>)
        ensures
            !can_initialize(old(self).state) ==> *final(self) == *old(self)
                && (r matches Err(e) && runtime_error(e, "Can only initialize from Initializing state"@)),
            can_initialize(old(self).state) && r is Ok ==> *final(self)
                == (SandboxCore { state: SandboxState::Ready, ..*old(self) }),
            can_initialize(old(self).state) && r is Err ==> *final(self)
                == (SandboxCore { state: SandboxState::Failed, ..*old(self) })
                && exists|msg: Seq<char>| #[trigger] invalid_module(r, "Failed to compile module: "@ + msg),
    {
        match self.begin_initialize() {
            Ok(()) => {},
            Err(e) => { return Err(e); },
        }
        match compile_module(engine, self.wasm_module.as_slice()) {
            Ok(module) => {
                match self.finish_initialize(Ok(())) {
                    Ok(()) => Ok(module),
                    Err(e) => Err(e),
                }
            },
            Err(msg) => {
                let ghost text = msg@;
                match self.finish_initialize(Err(msg)) {
                    Ok(()) => {
                        proof { assert(false); }
                        Err(SandboxCore::module_not_initialized())
                    },
                    Err(e) => {
                        let r: Result<wasmtime::Module, SandboxError> = Err(e);
                        assert(invalid_module(r, "Failed to compile module: "@ + text));
                        r
                    },
                }
            },
        }
    }

    /// Checks that the sandbox may run a function: only from Ready or
    /// Paused.
    pub fn begin_invoke(&self) -> (r: Result<(), SandboxError>)
        ensures
            r is Ok <==> can_invoke(self.state),
            r matches Err(e) ==> runtime_error(e, "Cannot invoke from state "@ + state_name(self.state)),
    {
        if self.state != SandboxState::Ready && self.state != SandboxState::Paused {
            return Err(SandboxError::RuntimeError(join2("Cannot invoke from state ", self.state.name())));
        }
        Ok(())
    }

    /// Takes in a failure to instantiate the module: the sandbox fails, and
    /// the error carries "Failed to instantiate module: " and the engine's
    /// message.
    pub fn fail_instantiation(&mut self, msg: &str) -> (e: SandboxError)
        ensures
            final(self).state == SandboxState::Failed,
            runtime_error(e, "Failed to instantiate module: "@ + msg@),
            *final(self) == (SandboxCore { state: SandboxState::Failed, ..*old(self) }),
    {
        self.state = SandboxState::Failed;
        SandboxError::RuntimeError(join2("Failed to instantiate module: ", msg))
    }

    /// The error of an invocation for which no compiled module is at hand.
    pub fn module_not_initialized() -> (e: SandboxError)
        ensures
            runtime_error(e, "Module not initialized"@),
    {
        SandboxError::RuntimeError(String::from_str("Module not initialized"))
    }

    /// The error of an invocation of `function`, which the module does not
    /// export.
    pub fn function_not_found(function: &str) -> (e: SandboxError)
        ensures
            e matches SandboxError::FunctionNotFound(name) && name@ == function@,
    {
        SandboxError::FunctionNotFound(String::from_str(function))
    }

    /// Marks the start of an execution: the sandbox is Running.
    pub fn start_run(&mut self)
        requires
            can_invoke(old(self).state),
        ensures
            *final(self) == (SandboxCore { state: SandboxState::Running, ..*old(self) }),
    {
        self.state = SandboxState::Running;
    }

    /// The memory an execution is counted as using: the module's size.
    pub fn estimate_memory_usage(&self) -> (m: u64)
        ensures
            m == self.wasm_module@.len() as u64,
    {
        self.wasm_module.len() as u64
    }

    /// Takes in the outcome of an execution that ran from `fuel_before` to
    /// `fuel_after` units of fuel for `duration_nanos`, finishing at Unix
    /// time `now`. The fuel used (held at 0) is counted, the time of
    /// execution noted, the memory peak raised to the module's size, the
    /// state set by `state_after_run`, and the execution recorded in the
    /// metrics. Answers the record of the execution.
    pub fn finish_run(&mut self, call: Result<(), String>, fuel_before: u64, fuel_after: u64,
        duration_nanos: u64, now: u64) -> (rec: ExecutionRecord)
        requires
            old(self).state == SandboxState::Running,
        ensures
            rec.success == call is Ok,
            rec.fuel_consumed == sat_sub(fuel_before, fuel_after),
            rec.duration_nanos == duration_nanos,
            rec.memory_used == old(self).wasm_module@.len() as u64,
            opt_text(rec.error) == run_error_text(call is Ok, match call { Ok(_) => Seq::empty(), Err(m) => m@ },
                duration_nanos, old(self).max_duration_nanos, fuel_after),
            final(self).state == state_after_run(call is Ok, duration_nanos, old(self).max_duration_nanos, fuel_after),
            final(self).fuel_consumed == sat_add(old(self).fuel_consumed, rec.fuel_consumed),
            final(self).last_executed == Some(now),
            final(self).memory_peak == max_u64(old(self).memory_peak, rec.memory_used),
            final(self).metrics == metrics_after(old(self).metrics, rec, now),
            final(self).id == old(self).id,
            final(self).owner == old(self).owner,
            final(self).wasm_module == old(self).wasm_module,
            final(self).capabilities == old(self).capabilities,
            final(self).created_at == old(self).created_at,
            final(self).max_duration_nanos == old(self).max_duration_nanos,
    {
        let fuel_consumed = fuel_before.saturating_sub(fuel_after);
        self.fuel_consumed = self.fuel_consumed.saturating_add(fuel_consumed);
        self.last_executed = Some(now);
        let memory_used = self.estimate_memory_usage();
        if memory_used > self.memory_peak {
            self.memory_peak = memory_used;
        }
        let rec = match call {
            Ok(()) => {
                self.state = SandboxState::Ready;
                ExecutionRecord { success: true, fuel_consumed, duration_nanos, memory_used, error: None }
            },
            Err(msg) => {
                if duration_nanos >= self.max_duration_nanos {
                    self.state = SandboxState::Failed;
                    ExecutionRecord { success: false, fuel_consumed, duration_nanos, memory_used,
                        error: Some(join2("Timeout: ", msg.as_str())) }
                } else if fuel_after == 0 {
                    self.state = SandboxState::Paused;
                    proof { reveal_strlit("Out of fuel"); }
                    ExecutionRecord { success: false, fuel_consumed, duration_nanos, memory_used,
                        error: Some(String::from_str("Out of fuel")) }
                } else {
                    self.state = SandboxState::Failed;
                    ExecutionRecord { success: false, fuel_consumed, duration_nanos, memory_used,
                        error: Some(join2("WASM trap: ", msg.as_str())) }
                }
            },
        };
        self.metrics.update(&rec, now);
        rec
    }

    /// The fuel a store holding `current` units has after `additional`
    /// more, held at `u64::MAX`.
    pub fn refuel_amount(current: u64, additional: u64) -> (r: u64)
        ensures
            r == sat_add(current, additional),
    {
        current.saturating_add(additional)
    }

    /// Takes in the outcome of giving the store more fuel: on success a
    /// paused sandbox is ready again; on failure nothing changes and the
    /// error carries "Failed to refuel: " and the engine's message.
    pub fn finish_refuel(&mut self, set: Result<(), String>) -> (r: Result<(), SandboxError>)
        ensures
            set is Ok ==> r is Ok && *final(self) == (SandboxCore { state: state_after_refuel(old(self).state), ..*old(self) }),
            set matches Err(msg) ==> *final(self) == *old(self)
                && (r matches Err(e) && runtime_error(e, "Failed to refuel: "@ + msg@)),
    {
        match set {
            Ok(()) => {
                if self.state == SandboxState::Paused {
                    self.state = SandboxState::Ready;
                }
                Ok(())
            },
            Err(msg) => Err(SandboxError::RuntimeError(join2("Failed to refuel: ", msg.as_str()))),
        }
    }

    /// Shuts the sandbox down.
    pub fn terminate(&mut self)
        ensures
            *final(self) == (SandboxCore { state: SandboxState::Terminated, ..*old(self) }),
    {
        self.state = SandboxState::Terminated;
    }

    /// Adds a capability grant.
    pub fn grant_capability(&mut self, grant: CapabilityGrant)
        ensures
            final(self).capabilities@ == old(self).capabilities@.push(grant),
            *final(self) == (SandboxCore { capabilities: final(self).capabilities, ..*old(self) }),
    {
        self.capabilities.push(grant);
    }

    /// Whether some grant is for `cap` and valid at Unix time `now`. Only
    /// the kind is compared: an Unrestricted grant does not count for
    /// other kinds here, and the scope is not looked at.
    pub fn has_capability_at(&self, cap: CapabilityType, now: u64) -> (r: bool)
        ensures
            r == grants_include(self.capabilities@, cap, now),
    {
        let n = self.capabilities.len();
        let mut i: usize = 0;
        while i < n
            invariant
                n == self.capabilities@.len(),
                i <= n,
                forall|j: int| 0 <= j < i ==> !((#[trigger] self.capabilities@[j]).capability == cap
                    && grant_valid_at(self.capabilities@[j], now)),
            decreases n - i,
        {
            let g = &self.capabilities[i];
            if g.capability == cap && g.is_valid_at(now) {
                return true;
            }
            i = i + 1;
        }
        false
    }

    /// Whether some grant is for `cap` and valid now, by the system clock.
    pub fn has_capability(&self, cap: CapabilityType) -> (r: bool)
        ensures
            exists|now: u64| r == #[trigger] grants_include(self.capabilities@, cap, now),
    {
        let now = current_timestamp();
        self.has_capability_at(cap, now)
    }
}

impl SandboxMetrics {
    /// `SandboxMetrics::new`, as contracts see it.
    pub open spec fn new_spec(sandbox_id: u64, now: u64) -> SandboxMetrics {
        SandboxMetrics { sandbox_id, execution_count: 0, total_fuel_consumed: 0, total_duration_nanos: 0,
            peak_memory: 0, trap_count: 0, last_updated: now }
    }
}

// ─── laws of the lifecycle ────────────────────────────────────────────────

/// Only a sandbox being initialized can be initialized, and only a ready or
/// paused one can run a function: a terminated, failed or running sandbox
/// admits neither.
pub proof fn law_states_admit(s: SandboxState)
    ensures
        can_initialize(s) <==> s == SandboxState::Initializing,
        can_invoke(s) <==> (s == SandboxState::Ready || s == SandboxState::Paused),
        s == SandboxState::Terminated || s == SandboxState::Failed || s == SandboxState::Running
            ==> !can_initialize(s) && !can_invoke(s),
{
}

/// An execution ends Ready, Paused or Failed: Ready exactly when the call
/// returned, and then with no error; Paused only when the fuel ran out
/// within the time limit.
pub proof fn law_run_outcome(call_ok: bool, engine_error: Seq<char>, duration_nanos: u64,
    max_duration_nanos: u64, fuel_after: u64)
    ensures
        ({
            let s = state_after_run(call_ok, duration_nanos, max_duration_nanos, fuel_after);
            &&& s == SandboxState::Ready || s == SandboxState::Paused || s == SandboxState::Failed
            &&& (s == SandboxState::Ready <==> call_ok)
            &&& (s == SandboxState::Paused ==> fuel_after == 0 && duration_nanos < max_duration_nanos)
            &&& (run_error_text(call_ok, engine_error, duration_nanos, max_duration_nanos, fuel_after) is None
                <==> call_ok)
        }),
{
}

/// Refuelling resumes a paused sandbox and leaves every other state as it
/// is; in particular a terminated sandbox stays terminated.
pub proof fn law_refuel_resumes_only_paused(s: SandboxState)
    ensures
        s == SandboxState::Paused ==> state_after_refuel(s) == SandboxState::Ready,
        s != SandboxState::Paused ==> state_after_refuel(s) == s,
        state_after_refuel(SandboxState::Terminated) == SandboxState::Terminated,
{
}

/// Recording an execution counts it once, counts it as a trap exactly when
/// it failed, adds its fuel and its duration to the totals (which are held
/// at `u64::MAX` and never lowered), raises the memory peak to exactly the
/// larger of the old peak and the execution's use, and stamps the time.
pub proof fn law_metrics_record(m: SandboxMetrics, rec: ExecutionRecord, now: u64)
    ensures
        ({
            let m2 = metrics_after(m, rec, now);
            &&& m.execution_count < u64::MAX ==> m2.execution_count == m.execution_count + 1
            &&& m2.execution_count >= m.execution_count && m2.execution_count >= 1
            &&& m2.trap_count >= m.trap_count
            &&& (rec.success ==> m2.trap_count == m.trap_count)
            &&& (m.trap_count < u64::MAX ==> (m2.trap_count == m.trap_count + 1 <==> !rec.success))
            &&& m2.total_fuel_consumed >= m.total_fuel_consumed
            &&& (m.total_fuel_consumed + rec.fuel_consumed <= u64::MAX
                ==> m2.total_fuel_consumed == m.total_fuel_consumed + rec.fuel_consumed)
            &&& (m.total_fuel_consumed + rec.fuel_consumed > u64::MAX ==> m2.total_fuel_consumed == u64::MAX)
            &&& m2.total_duration_nanos >= m.total_duration_nanos
            &&& (m.total_duration_nanos + rec.duration_nanos <= u64::MAX
                ==> m2.total_duration_nanos == m.total_duration_nanos + rec.duration_nanos)
            &&& (m.total_duration_nanos + rec.duration_nanos > u64::MAX ==> m2.total_duration_nanos == u64::MAX)
            &&& m2.peak_memory >= m.peak_memory && m2.peak_memory >= rec.memory_used
            &&& (m2.peak_memory == m.peak_memory || m2.peak_memory == rec.memory_used)
            &&& m2.sandbox_id == m.sandbox_id
            &&& m2.last_updated == now
        }),
{
}

/// What one run adds up to, as `finish_run` records it: one more
/// execution, the run's fuel added to the sandbox's and to the metrics'
/// totals, its duration added to the total duration, one more trap exactly
/// when the call failed, and the state Ready exactly when it succeeded (else Paused or Failed), with an error exactly
/// when it failed. Stated while the totals stay below `u64::MAX`, where they
/// are held.
pub proof fn law_run_accounting(m: SandboxMetrics, fuel_total: u64, call_ok: bool, engine_error: Seq<char>,
    fuel_before: u64, fuel_after: u64, duration_nanos: u64, max_duration_nanos: u64, rec: ExecutionRecord, now: u64)
    requires
        rec.success == call_ok,
        rec.fuel_consumed == sat_sub(fuel_before, fuel_after),
        m.execution_count < u64::MAX,
        m.trap_count < u64::MAX,
        rec.duration_nanos == duration_nanos,
        m.total_fuel_consumed + rec.fuel_consumed <= u64::MAX,
        m.total_duration_nanos + duration_nanos <= u64::MAX,
        fuel_total + rec.fuel_consumed <= u64::MAX,
    ensures
        ({
            let m2 = metrics_after(m, rec, now);
            let s = state_after_run(call_ok, duration_nanos, max_duration_nanos, fuel_after);
            &&& m2.execution_count == m.execution_count + 1
            &&& m2.total_fuel_consumed == m.total_fuel_consumed + rec.fuel_consumed
            &&& m2.total_duration_nanos == m.total_duration_nanos + duration_nanos
            &&& sat_add(fuel_total, rec.fuel_consumed) == fuel_total + rec.fuel_consumed
            &&& m2.trap_count == m.trap_count + (if rec.success { 0int } else { 1int })
            &&& (rec.success ==> s == SandboxState::Ready)
            &&& (!rec.success ==> s == SandboxState::Paused || s == SandboxState::Failed)
            &&& (rec.success <==> run_error_text(call_ok, engine_error, duration_nanos, max_duration_nanos,
                fuel_after) is None)
        }),
{
}

/// The fuel a sandbox has consumed never decreases, and grows by exactly
/// what an execution used while it stays below `u64::MAX`.
pub proof fn law_fuel_consumed_grows(total: u64, fuel_before: u64, fuel_after: u64)
    ensures
        sat_add(total, sat_sub(fuel_before, fuel_after)) >= total,
        fuel_after <= fuel_before && total + (fuel_before - fuel_after) <= u64::MAX
            ==> sat_add(total, sat_sub(fuel_before, fuel_after)) == total + fuel_before - fuel_after,
{
}

} // verus!
