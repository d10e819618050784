use kern::vm::bytecode::Instruction;
use kern::vm::machine::{VirtualMachine, VmError};
use kern::vm::registers::VmRegisters;

fn sample_program() -> Vec<Instruction> {
    vec![
        Instruction::new(0x11, 0, 42, 0, 0),
        Instruction::new(0x11, 1, 24, 0, 0),
        Instruction::new(0x13, 0, 1, 2, 0),
    ]
}

#[test]
fn test_basic_vm_operations() {
    let mut vm = VirtualMachine::new();
    vm.load_program(sample_program());
    let result = vm.execute();
    assert!(result.is_ok());
    assert_eq!(vm.get_register(2), Some(0));
}

#[test]
fn test_register_model() {
    let mut registers = VmRegisters::new();
    assert_eq!(registers.pc, 0);
    assert_eq!(registers.flag, 0);
    assert_eq!(registers.ctx, 0);
    assert_eq!(registers.err, 0);
    assert_eq!(registers.r, [0; 16]);
    registers.set_zero_flag(true);
    assert!(registers.is_zero());
    registers.set_compare_true_flag(true);
    assert!(registers.is_compare_true());
    registers.set_error_flag(true);
    assert!(registers.has_error());
    registers.set_halt_flag(true);
    assert!(registers.is_halt_requested());
}

#[test]
fn test_step_execution() {
    let mut vm = VirtualMachine::new();
    vm.load_program(sample_program());
    assert!(vm.step().is_ok());
    assert_eq!(vm.get_register(0), Some(42));
    assert!(vm.step().is_ok());
    assert_eq!(vm.get_register(1), Some(24));
    assert!(vm.step().is_ok());
    assert_eq!(vm.get_register(2), Some(0));
    assert_eq!(vm.execution_trace.len(), 3);
}

#[test]
fn test_introspection_hooks() {
    let vm = VirtualMachine::new();
    let state_trace = vm.trace_state();
    assert!(state_trace.contains("PC: 0"));
    let registers_trace = vm.trace_registers();
    assert_eq!(registers_trace, [0; 16]);
    let context_trace = vm.trace_context();
    assert_eq!(context_trace.len(), 1);
}

#[test]
fn vm_state_line_is_exact() {
    let mut vm = VirtualMachine::new();
    vm.set_register(1, -7).unwrap();
    vm.registers.set_halt_flag(true);
    assert_eq!(vm.trace_state(), "PC: 0, FLAG: 0x10, CTX: 0, ERR: 0, R0-R3: [0, -7, 0, 0]");
}

#[test]
fn vm_compare_sets_flags_and_result() {
    let mut vm = VirtualMachine::new();
    vm.load_program(vec![
        Instruction::new(0x11, 0, 7, 0, 0),
        Instruction::new(0x11, 1, 9, 0, 0),
        Instruction::new(0x13, 0, 1, 2, 3),
    ]);
    assert!(vm.execute().is_ok());
    assert_eq!(vm.get_register(2), Some(1));
    assert!(vm.registers.is_compare_true());
    assert!(vm.registers.is_negative());
    assert!(!vm.registers.is_zero());
    assert_eq!(vm.registers.pc, 3);
}

#[test]
fn vm_jump_and_halt() {
    let mut vm = VirtualMachine::new();
    vm.load_program(vec![
        Instruction::new(0x01, 2, 0, 0, 0),
        Instruction::new(0x11, 0, 1, 0, 0),
        Instruction::new(0x03, 0, 0, 0, 0),
        Instruction::new(0x11, 0, 5, 0, 0),
    ]);
    assert!(vm.execute().is_ok());
    assert_eq!(vm.get_register(0), Some(0));
    assert!(vm.registers.is_halt_requested());
    assert_eq!(vm.registers.pc, 3);
    assert_eq!(vm.execution_trace.len(), 2);
}

#[test]
fn vm_errors() {
    let mut vm = VirtualMachine::new();
    vm.load_program(vec![Instruction::new(0x11, 16, 1, 0, 0)]);
    assert!(matches!(vm.step(), Err(VmError::InvalidRegister(16))));
    assert_eq!(vm.registers.pc, 0);
    assert_eq!(vm.execution_trace.len(), 0);
    vm.load_program(vec![Instruction::new(0xEE, 0, 0, 0, 0)]);
    assert!(matches!(vm.step(), Err(VmError::InvalidOpcode(0xEE))));
    vm.load_program(vec![Instruction::new(0x01, 5, 0, 0, 0)]);
    assert!(matches!(vm.step(), Err(VmError::InvalidPc)));
    vm.load_program(vec![]);
    assert!(matches!(vm.step(), Err(VmError::InvalidPc)));
    assert!(matches!(vm.set_register(16, 1), Err(VmError::InvalidRegister(16))));
    assert_eq!(vm.get_register(16), None);
}

#[test]
fn vm_contexts_and_output() {
    let mut vm = VirtualMachine::new();
    vm.load_program(vec![
        Instruction::new(0x40, 3, 0, 0, 0),
        Instruction::new(0x41, 3, 0, 0, 0),
        Instruction::new(0x42, 0, 0, 0, 0),
        Instruction::new(0x43, 1, 0, 0, 0),
        Instruction::new(0x71, 3, 0, 0, 0),
        Instruction::new(0x60, 9, 0, 0, 0),
    ]);
    assert!(vm.execute().is_ok());
    assert_eq!(vm.get_register(3), Some(1));
    assert_eq!(vm.current_context, 1);
    assert_eq!(vm.contexts.len(), 2);
    assert_eq!(vm.contexts[1].id, 2);
    assert_eq!(vm.output, vec!["Output: 1".to_string(), "Calling external function with ID: 9".to_string()]);
    assert!(!vm.running);
}

#[test]
fn vm_trace_records_register_changes() {
    let mut vm = VirtualMachine::new();
    vm.load_program(vec![Instruction::new(0x10, 2, 1, 4, 7)]);
    assert!(vm.step().is_ok());
    assert_eq!(vm.get_register(4), Some(65538));
    let entry = &vm.execution_trace[0];
    assert_eq!(entry.pc_before, 0);
    assert_eq!(entry.opcode, 0x10);
    assert_eq!(entry.operands, 2 | (1 << 16) | (4 << 32) | (7 << 48));
    assert_eq!(entry.register_diff[4], 65538);
    assert_eq!(entry.register_diff[0], 0);
}

#[test]
fn execute_runs_every_step_and_stops_running() {
    let mut vm = VirtualMachine::new();
    vm.load_program(sample_program());
    assert!(vm.execute().is_ok());
    assert_eq!(vm.step_count, 3);
    assert!(!vm.running);
    assert_eq!(vm.execution_trace.len(), 3);
    assert_eq!(vm.registers.pc, 3);
}

#[test]
fn execute_stops_at_the_step_limit() {
    let mut vm = VirtualMachine::new();
    vm.load_program(sample_program());
    vm.max_steps = 2;
    assert!(matches!(vm.execute(), Err(VmError::ExecutionLimitExceeded)));
    assert_eq!(vm.step_count, 2);
    assert_eq!(vm.registers.pc, 2);
    assert_eq!(vm.execution_trace.len(), 2);
}

#[test]
fn execute_stops_at_the_first_failing_instruction() {
    let mut vm = VirtualMachine::new();
    vm.load_program(vec![Instruction::new(0x11, 0, 7, 0, 0), Instruction::new(0xEE, 0, 0, 0, 0), Instruction::new(0x11, 1, 9, 0, 0)]);
    assert!(matches!(vm.execute(), Err(VmError::InvalidOpcode(0xEE))));
    assert_eq!(vm.step_count, 1);
    assert_eq!(vm.registers.pc, 1);
    assert_eq!(vm.get_register(0), Some(7));
    assert_eq!(vm.get_register(1), Some(0));
}

#[test]
fn execute_of_an_empty_program_succeeds_at_once() {
    let mut vm = VirtualMachine::new();
    vm.load_program(Vec::new());
    assert!(vm.execute().is_ok());
    assert_eq!(vm.step_count, 0);
    assert!(vm.execution_trace.is_empty());
}
