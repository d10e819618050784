use kern::vm::bytecode::{Instruction, Opcode};
use kern::vm_safety::limit_errors::{
    loop_limit_error, memory_limit_error, rule_limit_error, sandbox_violation_error, security_violation_error,
    step_limit_error, LimitError, LimitResult, MemoryLimitType,
};
use kern::vm_safety::memory_limits::{MemoryLimits, MemoryManager, MemoryRegion, MemoryUsage};
use kern::vm_safety::perf_monitor::{PerformanceConfig, PerformanceMetrics, PerformanceMonitor};
use kern::vm_safety::sandbox::{FunctionCallTracker, IoOperationTracker, SandboxEnvironment, SandboxError, SandboxPolicy};
use kern::vm_safety::security::{SecurityError, SecurityValidationContext, SecurityValidator};
use kern::vm_safety::step_limits::{ExecutionCounters, ExecutionLimits, StepLimitError, StepLimiter};

#[test]
fn test_limit_error_creation() {
    let mem_error = memory_limit_error(MemoryLimitType::Heap);
    assert_eq!(mem_error, LimitError::MemoryLimitExceeded(MemoryLimitType::Heap));
    assert_eq!(step_limit_error(), LimitError::StepLimitExceeded);
    assert_eq!(rule_limit_error(), LimitError::RuleLimitExceeded);
    assert_eq!(loop_limit_error(), LimitError::LoopLimitExceeded);
    assert_eq!(sandbox_violation_error(), LimitError::SandboxViolation);
    assert_eq!(security_violation_error(), LimitError::SecurityViolation);
}

#[test]
fn test_limit_error_display() {
    assert_eq!(LimitError::MemoryLimitExceeded(MemoryLimitType::Stack).message(), "Memory limit exceeded: Stack");
    assert_eq!(LimitError::StepLimitExceeded.message(), "Instruction step limit exceeded");
    assert_eq!(LimitError::RuleLimitExceeded.message(), "Rule invocation/recursion limit exceeded");
    assert_eq!(LimitError::LoopLimitExceeded.message(), "Loop iteration limit exceeded");
    assert_eq!(LimitError::SandboxViolation.message(), "Sandbox policy violation");
    assert_eq!(LimitError::SecurityViolation.message(), "Security violation");
}

#[test]
fn test_memory_limit_type_display() {
    assert_eq!(MemoryLimitType::Code.name(), "Code");
    assert_eq!(MemoryLimitType::Const.name(), "Constant");
    assert_eq!(MemoryLimitType::Stack.name(), "Stack");
    assert_eq!(MemoryLimitType::Heap.name(), "Heap");
    assert_eq!(MemoryLimitType::Meta.name(), "Meta");
}

#[test]
fn test_limit_result_type() {
    let success: LimitResult<()> = Ok(());
    assert!(success.is_ok());
    let error: LimitResult<()> = Err(LimitError::StepLimitExceeded);
    assert!(error.is_err());
    assert_eq!(error.unwrap_err(), LimitError::StepLimitExceeded);
}

#[test]
fn test_memory_limits_creation() {
    let limits = MemoryLimits::new(100, 200, 300, 400, 500);
    assert_eq!(limits.max_code_bytes, 100);
    assert_eq!(limits.max_const_bytes, 200);
    assert_eq!(limits.max_stack_bytes, 300);
    assert_eq!(limits.max_heap_bytes, 400);
    assert_eq!(limits.max_meta_bytes, 500);
}

#[test]
fn test_memory_manager_allocation() {
    let limits = MemoryLimits::new(100, 100, 100, 100, 100);
    let mut manager = MemoryManager::new(limits);
    assert!(manager.allocate(MemoryRegion::Heap, 50).is_ok());
    assert_eq!(manager.usage.heap_used, 50);
    assert!(manager.allocate(MemoryRegion::Heap, 60).is_err());
    assert_eq!(manager.usage.heap_used, 50);
    manager.deallocate(MemoryRegion::Heap, 20);
    assert_eq!(manager.usage.heap_used, 30);
}

#[test]
fn test_memory_usage_exceeds_limit() {
    let limits = MemoryLimits::new(100, 100, 100, 100, 100);
    let mut usage = MemoryUsage::new();
    usage.heap_used = 150;
    assert!(usage.exceeds_limit(&limits));
    assert_eq!(usage.would_exceed_limit(&limits), Some(kern::vm_safety::memory_limits::MemoryLimitType::Heap));
}

#[test]
fn test_execution_limits_creation() {
    let limits = ExecutionLimits::new(1000, 500, 200);
    assert_eq!(limits.max_steps, 1000);
    assert_eq!(limits.max_rule_invocations, 500);
    assert_eq!(limits.max_loop_iterations, 200);
}

#[test]
fn test_execution_counters() {
    let limits = ExecutionLimits::new(10, 5, 3);
    let mut counters = ExecutionCounters::new();
    for i in 1..=10 {
        if i <= 10 {
            assert!(counters.increment_step(&limits).is_ok());
        }
    }
    assert_eq!(counters.step_count, 10);
    assert!(counters.increment_step(&limits).is_err());
    for i in 1..=5 {
        if i <= 5 {
            assert!(counters.increment_rule_invocation(&limits).is_ok());
        }
    }
    assert_eq!(counters.rule_invocation_count, 5);
    assert!(counters.increment_rule_invocation(&limits).is_err());
    for i in 1..=3 {
        if i <= 3 {
            assert!(counters.increment_loop_iteration(&limits).is_ok());
        }
    }
    assert_eq!(counters.loop_iteration_count, 3);
    assert!(counters.increment_loop_iteration(&limits).is_err());
}

#[test]
fn test_step_limiter() {
    let limits = ExecutionLimits::new(5, 3, 2);
    let mut limiter = StepLimiter::new(limits);
    for _ in 0..5 {
        assert!(limiter.increment_step().is_ok());
    }
    assert_eq!(limiter.remaining_steps(), 0);
    assert!(limiter.increment_step().is_err());
    limiter.reset();
    assert_eq!(limiter.counters.step_count, 0);
    assert!(limiter.increment_step().is_ok());
}

#[test]
fn test_exceeds_limit() {
    let limits = ExecutionLimits::new(5, 3, 2);
    let mut counters = ExecutionCounters::new();
    for _ in 0..6 {
        counters.step_count += 1;
    }
    assert_eq!(counters.exceeds_limit(&limits), Some(StepLimitError::StepLimitExceeded));
}

#[test]
fn test_sandbox_policy() {
    let mut policy = SandboxPolicy::new();
    policy.allow_function("print");
    policy.allow_function("read_file");
    assert!(policy.is_function_allowed("print"));
    assert!(policy.is_function_allowed("read_file"));
    assert!(!policy.is_function_allowed("system"));
    policy.set_max_calls_for_function("print", 5);
    assert!(policy.would_exceed_call_limit("print", 5));
    assert!(!policy.would_exceed_call_limit("print", 4));
}

#[test]
fn test_function_call_tracker() {
    let mut policy = SandboxPolicy::new();
    policy.allow_function("test_func");
    policy.set_max_calls_for_function("test_func", 3);
    let mut tracker = FunctionCallTracker::new();
    for _ in 0..3 {
        assert!(tracker.record_call("test_func", &policy).is_ok());
    }
    assert_eq!(tracker.record_call("test_func", &policy), Err(SandboxError::CallLimitExceeded("test_func".to_string())));
    assert_eq!(tracker.record_call("forbidden_func", &policy), Err(SandboxError::FunctionNotAllowed("forbidden_func".to_string())));
}

#[test]
fn test_io_operation_tracker() {
    let mut policy = SandboxPolicy::new();
    policy.allow_io_channel("stdout");
    let mut tracker = IoOperationTracker::new();
    for _ in 0..5 {
        assert!(tracker.record_io_operation("stdout", &policy).is_ok());
    }
    assert_eq!(tracker.record_io_operation("network", &policy), Err(SandboxError::IoChannelNotAllowed("network".to_string())));
}

#[test]
fn test_sandbox_environment() {
    let mut policy = SandboxPolicy::new();
    policy.allow_function("print");
    policy.set_max_calls_for_function("print", 2);
    policy.allow_io_channel("stdout");
    let mut sandbox = SandboxEnvironment::new(policy);
    assert!(sandbox.execute_external_call("print").is_ok());
    assert!(sandbox.execute_external_call("print").is_ok());
    assert_eq!(sandbox.execute_external_call("print"), Err(SandboxError::CallLimitExceeded("print".to_string())));
    assert!(sandbox.execute_io_operation("stdout").is_ok());
    assert!(sandbox.execute_io_operation("stdout").is_ok());
    assert_eq!(sandbox.execute_external_call("system"), Err(SandboxError::FunctionNotAllowed("system".to_string())));
    assert_eq!(sandbox.get_function_call_count("print"), 3);
    assert_eq!(sandbox.get_io_operation_count("stdout"), 2);
}

#[test]
fn test_security_validator_creation() {
    let validator = SecurityValidator::new();
    assert!(!validator.allows_self_modifying_code());
    assert!(!validator.allows_dynamic_dispatch());
    assert!(!validator.allows_runtime_code_loading());
    assert!(validator.allowed_opcodes.contains(&0x00));
    assert!(validator.allowed_opcodes.contains(&0x11));
}

#[test]
fn test_instruction_validation() {
    let validator = SecurityValidator::new();
    let valid_instr = Instruction::new(0x11, 42, 1, 0, 0);
    assert!(validator.validate_instruction(&valid_instr).is_ok());
    let invalid_instr = Instruction::new(0xFF, 0, 0, 0, 0);
    assert_eq!(validator.validate_instruction(&invalid_instr), Err(SecurityError::IllegalOpcode(0xFF)));
}

#[test]
fn test_bytecode_validation() {
    let validator = SecurityValidator::new();
    let valid_instructions = vec![
        Instruction::new(0x11, 42, 1, 0, 0),
        Instruction::new(0x00, 0, 0, 0, 0),
        Instruction::new(0x03, 0, 0, 0, 0),
    ];
    assert!(validator.validate_bytecode(&valid_instructions).is_ok());
    let invalid_instructions = vec![Instruction::new(0x11, 42, 1, 0, 0), Instruction::new(0xFF, 0, 0, 0, 0)];
    assert!(validator.validate_bytecode(&invalid_instructions).is_err());
}

#[test]
fn test_memory_access_validation() {
    let validator = SecurityValidator::new();
    assert!(validator.validate_memory_access(100, 10).is_ok());
    assert_eq!(validator.validate_memory_access(u32::MAX, 10), Err(SecurityError::InvalidMemoryAccess));
}

#[test]
fn test_context_access_validation() {
    let validator = SecurityValidator::new();
    assert!(validator.validate_context_access(100).is_ok());
    assert_eq!(validator.validate_context_access(2000000), Err(SecurityError::ContextEscape));
}

#[test]
fn test_security_validation_context() {
    let validator = SecurityValidator::new();
    let sandbox = SandboxEnvironment::new(SandboxPolicy::new());
    let mut context = SecurityValidationContext::new(validator, sandbox);
    let instr = Instruction::new(0x11, 42, 1, 0, 0);
    assert!(context.validate_instruction(&instr).is_ok());
    let invalid_instr = Instruction::new(0xFF, 0, 0, 0, 0);
    assert!(context.validate_instruction(&invalid_instr).is_err());
}

#[test]
fn test_performance_metrics() {
    let mut metrics = PerformanceMetrics::new();
    metrics.record_instruction(Opcode::Nop);
    metrics.record_instruction(Opcode::LoadNum);
    assert_eq!(metrics.instruction_count, 2);
    assert_eq!(metrics.get_opcode_count(Opcode::Nop), 1);
    assert_eq!(metrics.get_opcode_count(Opcode::LoadNum), 1);
    metrics.update_stack_depth(5);
    assert_eq!(metrics.current_stack_depth, 5);
    assert_eq!(metrics.max_stack_depth, 5);
    metrics.update_stack_depth(3);
    assert_eq!(metrics.current_stack_depth, 3);
    assert_eq!(metrics.max_stack_depth, 5);
    metrics.update_stack_depth(10);
    assert_eq!(metrics.current_stack_depth, 10);
    assert_eq!(metrics.max_stack_depth, 10);
    metrics.update_heap_usage(100);
    assert_eq!(metrics.current_heap_usage, 100);
    assert_eq!(metrics.heap_peak_usage, 100);
    metrics.update_heap_usage(50);
    assert_eq!(metrics.current_heap_usage, 50);
    assert_eq!(metrics.heap_peak_usage, 100);
    metrics.update_heap_usage(200);
    assert_eq!(metrics.current_heap_usage, 200);
    assert_eq!(metrics.heap_peak_usage, 200);
    metrics.record_rule_invocation("test_rule");
    metrics.record_rule_invocation("test_rule");
    metrics.record_rule_invocation("another_rule");
    assert_eq!(metrics.get_rule_invocation_count("test_rule"), 2);
    assert_eq!(metrics.get_rule_invocation_count("another_rule"), 1);
    metrics.update_graph_node_count(42);
    assert_eq!(metrics.graph_node_count, 42);
}

#[test]
fn test_performance_monitor() {
    let mut monitor = PerformanceMonitor::new();
    monitor.record_instruction(Opcode::Nop);
    monitor.record_instruction(Opcode::LoadNum);
    assert_eq!(monitor.metrics.instruction_count, 2);
    monitor.update_stack_depth(10);
    assert_eq!(monitor.metrics.max_stack_depth, 10);
    monitor.update_heap_usage(100);
    assert_eq!(monitor.metrics.heap_peak_usage, 100);
    monitor.record_rule_invocation("test_rule");
    assert_eq!(monitor.metrics.get_rule_invocation_count("test_rule"), 1);
    monitor.update_graph_node_count(5);
    assert_eq!(monitor.metrics.graph_node_count, 5);
    monitor.set_instruction_counting(false);
    let prev_count = monitor.metrics.instruction_count;
    monitor.record_instruction(Opcode::Halt);
    assert_eq!(monitor.metrics.instruction_count, prev_count);
}

#[test]
fn test_performance_config() {
    let mut config = PerformanceConfig::new();
    assert!(config.enable_instruction_counting);
    assert!(config.enable_opcode_breakdown);
    config.disable_all();
    assert!(!config.enable_instruction_counting);
    assert!(!config.enable_opcode_breakdown);
    config.enable_all();
    assert!(config.enable_instruction_counting);
    assert!(config.enable_opcode_breakdown);
}

#[test]
fn test_performance_report() {
    let mut monitor = PerformanceMonitor::new();
    monitor.record_instruction(Opcode::Nop);
    monitor.record_instruction(Opcode::LoadNum);
    monitor.update_stack_depth(5);
    monitor.update_heap_usage(100);
    monitor.record_rule_invocation("test_rule");
    monitor.update_graph_node_count(3);
    let report = monitor.generate_report();
    assert!(report.contains("Total Instructions: 2"));
    assert!(report.contains("Max Stack Depth: 5"));
    assert!(report.contains("Heap Peak Usage: 100"));
    assert!(report.contains("Graph Node Count: 3"));
    assert!(report.contains("test_rule"));
}

#[test]
fn test_allocation_reads_the_region_table() {
    let limits = MemoryLimits::new(100, 100, 100, 100, 100);
    let mut manager = MemoryManager::new(limits);
    manager.usage.heap_used = 99;
    assert!(manager.allocate(MemoryRegion::Heap, 50).is_ok());
    assert_eq!(manager.usage.heap_used, 50);
    assert_eq!(manager.region_usage.heap_used, 50);
    assert!(manager.would_allocate_exceed_limit(MemoryRegion::Heap, 51));
    manager.deallocate(MemoryRegion::Heap, 70);
    assert_eq!(manager.usage.heap_used, 0);
    assert_eq!(manager.region_usage.heap_used, 0);
}
