//! The virtual machine: fetch, decode and execute, one instruction at a time.
//!
//! What the original printed while executing is kept, line by line, in
//! `output`, for the caller to show.
use vstd::prelude::*;
use vstd::array::ArrayAdditionalExecFns;
use crate::maps::views;
use crate::text::{decimal, signed_decimal, hex, owned, u64_to_decimal, i64_to_decimal, u64_to_hex};
use crate::vm::bytecode::Instruction;
use crate::vm::registers::{VmRegisters, VmContext, MemoryRegions, bit, flag_with, lemma_bit_update};

verus! {

/// One executed instruction: where it stood, what it was, and how it changed
/// the general registers (each difference wrapping round in 64 bits).
#[derive(Debug, Clone)]
pub struct ExecutionTraceEntry {
    pub pc_before: u32,
    pub opcode: u8,
    pub operands: u64,
    pub register_diff: [i64; 16],
    pub memory_diff: Vec<u8>,
}

#[derive(Debug, Clone, Copy, PartialEq, Eq, Structural)]
pub enum VmError {
    InvalidOpcode(u8),
    InvalidRegister(u16),
    InvalidAddress(u32),
    ExecutionLimitExceeded,
    DivisionByZero,
    StackOverflow,
    StackUnderflow,
    InvalidPc,
    InvalidInstruction,
    UndefinedSymbol,
}

/// What a context holds.
pub struct CtxV {
    pub id: u64,
    pub r: Seq<i64>,
    pub pc: u32,
    pub flag: u64,
    pub ctx: u64,
    pub err: u64,
    pub memory: Seq<u8>,
    pub variables: Map<Seq<char>, i64>,
}

impl VmContext {
    pub open spec fn ctx_view(&self) -> CtxV {
        CtxV {
            id: self.id,
            r: self.registers.r@,
            pc: self.registers.pc,
            flag: self.registers.flag,
            ctx: self.registers.ctx,
            err: self.registers.err,
            memory: self.memory@,
            variables: self.variables@,
        }
    }

    /// A copy that holds the same, under another id.
    pub fn copy_as(&self, id: u64) -> (c: VmContext)
        requires
            self.variables.wf(),
        ensures
            c.variables.wf(),
            c.ctx_view() == (CtxV { id, ..self.ctx_view() }),
    {
        let mut memory: Vec<u8> = Vec::new();
        let mut i: usize = 0;
        while i < self.memory.len()
            invariant
                i <= self.memory@.len(),
                memory@ == self.memory@.take(i as int),
            decreases self.memory@.len() - i,
        {
            memory.push(self.memory[i]);
            assert(self.memory@.take(i + 1) =~= self.memory@.take(i as int).push(self.memory@[i as int]));
            i += 1;
        }
        assert(self.memory@.take(self.memory@.len() as int) =~= self.memory@);
        let variables = self.variables.duplicate();
        assert(variables@ =~= self.variables@);
        VmContext { id, registers: self.registers, memory, variables }
    }
}

/// What the contexts hold.
pub open spec fn ctx_views(cs: Seq<VmContext>) -> Seq<CtxV> {
    cs.map_values(|c: VmContext| c.ctx_view())
}

/// Every context's variables are well formed.
pub open spec fn contexts_wf(cs: Seq<VmContext>) -> bool {
    forall|i: int| 0 <= i < cs.len() ==> (#[trigger] cs[i]).variables.wf()
}

/// What an instruction does: fail with an error and change nothing, or set
/// the general registers, the flags,
/// the error register and the contexts, the current context and the running
/// flag, print a line and jump, each as given.
pub enum Outcome {
    Fail(VmError),
    Done {
        r: Seq<i64>,
        flag: u64,
        err: u64,
        ctxs: Seq<CtxV>,
        current: usize,
        running: bool,
        line: Option<Seq<char>>,
        jump: Option<u32>,
    },
}

/// A new context: zero registers, a kilobyte of zeros, no variables.
pub open spec fn fresh_context(id: u64) -> CtxV {
    CtxV {
        id,
        r: Seq::new(16, |i: int| 0i64),
        pc: 0,
        flag: 0,
        ctx: 0,
        err: 0,
        memory: Seq::new(1024, |i: int| 0u8),
        variables: Map::empty(),
    }
}

/// The argument packed as the trace shows it.
pub open spec fn packed(ins: Instruction) -> u64 {
    (ins.arg1 as u64) | ((ins.arg2 as u64) << 16u64) | ((ins.arg3 as u64) << 32u64) | ((ins.flags as u64) << 48u64)
}

/// Whether a comparison of `a` and `b` holds, by the instruction's flags:
/// equal, not equal, greater, less, at least, at most; any other flags: never.
pub open spec fn comparison(flags: u16, a: i64, b: i64) -> bool {
    if flags == 0 { a == b }
    else if flags == 1 { a != b }
    else if flags == 2 { a > b }
    else if flags == 3 { a < b }
    else if flags == 4 { a >= b }
    else if flags == 5 { a <= b }
    else { false }
}

/// The line an instruction of the graph, rule and external families prints.
pub open spec fn notice(op: u8, arg1: u16) -> Seq<char> {
    if op == 0x20 { "Creating graph node"@ }
    else if op == 0x21 { "Creating graph edge"@ }
    else if op == 0x22 { "Performing graph match"@ }
    else if op == 0x23 { "Traversing graph"@ }
    else if op == 0x30 { "Loading rule"@ }
    else if op == 0x31 { "Evaluating rule"@ }
    else if op == 0x32 { "Firing rule"@ }
    else if op == 0x33 { "Setting rule priority"@ }
    else if op == 0x60 { "Calling external function with ID: "@ + decimal(arg1 as nat) }
    else { "Binding external function"@ }
}

/// The machine with the dynamic parts it runs on.
pub struct VirtualMachine {
    pub registers: VmRegisters,
    pub contexts: Vec<VmContext>,
    pub current_context: usize,
    pub memory: MemoryRegions,
    pub program: Vec<Instruction>,
    pub running: bool,
    pub max_steps: u32,
    pub step_count: u32,
    pub execution_trace: Vec<ExecutionTraceEntry>,
    pub output: Vec<String>,
}

impl VirtualMachine {
    /// What `ins` does on this machine.
    pub open spec fn outcome(&self, ins: Instruction) -> Outcome {
        let r = self.registers.r@;
        let f = self.registers.flag;
        let err = self.registers.err;
        let ctxs = ctx_views(self.contexts@);
        let cur = self.current_context;
        let run = self.running;
        let len = self.program@.len();
        let op = ins.opcode;
        let same = Outcome::Done { r, flag: f, err, ctxs, current: cur, running: run, line: None, jump: None };
        if op == 0x00 {
            same
        } else if op == 0x01 {
            if (ins.arg1 as int) < len {
                Outcome::Done { r, flag: f, err, ctxs, current: cur, running: run, line: None, jump: Some(ins.arg1 as u32) }
            } else {
                Outcome::Fail(VmError::InvalidPc)
            }
        } else if op == 0x02 {
            if bit(f, 2) && (ins.arg1 as int) < len {
                Outcome::Done { r, flag: f, err, ctxs, current: cur, running: run, line: None, jump: Some(ins.arg1 as u32) }
            } else {
                same
            }
        } else if op == 0x03 {
            Outcome::Done { r, flag: flag_with(f, 4, true), err, ctxs, current: cur, running: run, line: None, jump: None }
        } else if op == 0x10 {
            if ins.arg3 >= 16 {
                Outcome::Fail(VmError::InvalidRegister(ins.arg3))
            } else {
                let v = ins.arg1 as int + (ins.arg2 as int) * 65536;
                Outcome::Done { r: r.update(ins.arg3 as int, v as i64), flag: f, err, ctxs, current: cur, running: run, line: None, jump: None }
            }
        } else if op == 0x11 {
            if ins.arg1 >= 16 {
                Outcome::Fail(VmError::InvalidRegister(ins.arg1))
            } else {
                Outcome::Done { r: r.update(ins.arg1 as int, ins.arg2 as i64), flag: f, err, ctxs, current: cur, running: run, line: None, jump: None }
            }
        } else if op == 0x12 {
            if ins.arg2 >= 16 {
                Outcome::Fail(VmError::InvalidRegister(ins.arg2))
            } else if ins.arg1 >= 16 {
                Outcome::Fail(VmError::InvalidRegister(ins.arg1))
            } else {
                Outcome::Done { r: r.update(ins.arg2 as int, r[ins.arg1 as int]), flag: f, err, ctxs, current: cur, running: run, line: None, jump: None }
            }
        } else if op == 0x13 {
            if ins.arg1 >= 16 || ins.arg2 >= 16 || ins.arg3 >= 16 {
                Outcome::Fail(VmError::InvalidRegister(ins.arg1))
            } else {
                let a = r[ins.arg1 as int];
                let b = r[ins.arg2 as int];
                let result = comparison(ins.flags, a, b);
                let f2 = flag_with(flag_with(flag_with(f, 0, a == b), 1, a < b), 2, result);
                Outcome::Done {
                    r: r.update(ins.arg3 as int, if result { 1i64 } else { 0i64 }),
                    flag: f2, err, ctxs, current: cur, running: run, line: None, jump: None,
                }
            }
        } else if (0x20 <= op && op <= 0x23) || (0x30 <= op && op <= 0x33) || op == 0x60 || op == 0x61 {
            Outcome::Done { r, flag: f, err, ctxs, current: cur, running: run, line: Some(notice(op, ins.arg1)), jump: None }
        } else if op == 0x40 {
            let id = ctxs.len();
            let r2 = if ins.arg1 < 16 { r.update(ins.arg1 as int, id as i64) } else { r };
            Outcome::Done { r: r2, flag: f, err, ctxs: ctxs.push(fresh_context(id as u64)), current: cur, running: run, line: None, jump: None }
        } else if op == 0x41 {
            let c = if ins.arg1 < 16 && 0 <= r[ins.arg1 as int] && r[ins.arg1 as int] < ctxs.len() {
                r[ins.arg1 as int] as usize
            } else {
                cur
            };
            Outcome::Done { r, flag: f, err, ctxs, current: c, running: run, line: None, jump: None }
        } else if op == 0x42 {
            if (ins.arg1 as int) < ctxs.len() {
                Outcome::Done { r, flag: f, err, ctxs: ctxs.push(CtxV { id: ctxs.len() as u64, ..ctxs[ins.arg1 as int] }), current: cur, running: run, line: None, jump: None }
            } else {
                Outcome::Fail(VmError::InvalidAddress(ins.arg1 as u32))
            }
        } else if op == 0x43 {
            if (ins.arg1 as int) < ctxs.len() && ins.arg1 != 0 {
                Outcome::Done { r, flag: f, err, ctxs: ctxs.remove(ins.arg1 as int), current: cur, running: run, line: None, jump: None }
            } else {
                Outcome::Fail(VmError::InvalidAddress(ins.arg1 as u32))
            }
        } else if op == 0x50 {
            Outcome::Done { r, flag: flag_with(f, 3, true), err: ins.arg1 as u64, ctxs, current: cur, running: run, line: None, jump: None }
        } else if op == 0x51 {
            Outcome::Done { r, flag: flag_with(f, 3, false), err: 0, ctxs, current: cur, running: run, line: None, jump: None }
        } else if op == 0x52 {
            if err != 0 && (ins.arg1 as int) < len {
                Outcome::Done { r, flag: f, err, ctxs, current: cur, running: run, line: None, jump: Some(ins.arg1 as u32) }
            } else {
                same
            }
        } else if op == 0x70 {
            Outcome::Done { r, flag: f, err, ctxs, current: cur, running: false, line: None, jump: None }
        } else if op == 0x71 {
            if ins.arg1 < 16 {
                Outcome::Done { r, flag: f, err, ctxs, current: cur, running: run, line: Some("Output: "@ + signed_decimal(r[ins.arg1 as int] as int)), jump: None }
            } else {
                same
            }
        } else {
            Outcome::Fail(VmError::InvalidOpcode(op))
        }
    }

    /// `new` is `old` after an instruction with outcome `o` (before the
    /// program counter moves on); `r` tells whether it jumped.
    pub open spec fn applied(old: &Self, new: &Self, o: Outcome, r: Result<bool, VmError>) -> bool {
        &&& new.program@ == old.program@
        &&& new.memory == old.memory
        &&& new.max_steps == old.max_steps
        &&& new.step_count == old.step_count
        &&& new.execution_trace@ == old.execution_trace@
        &&& contexts_wf(new.contexts@)
        &&& match o {
            Outcome::Fail(e) => {
                &&& r == Err::<bool, VmError>(e)
                &&& new.registers == old.registers
                &&& ctx_views(new.contexts@) == ctx_views(old.contexts@)
                &&& new.current_context == old.current_context
                &&& new.running == old.running
                &&& views(new.output@) == views(old.output@)
            },
            Outcome::Done { r: regs, flag, err, ctxs, current, running, line, jump } => {
                &&& r == Ok::<bool, VmError>(jump is Some)
                &&& new.registers.r@ == regs
                &&& new.registers.flag == flag
                &&& new.registers.err == err
                &&& new.registers.ctx == old.registers.ctx
                &&& new.registers.pc == if jump is Some { jump->0 } else { old.registers.pc }
                &&& ctx_views(new.contexts@) == ctxs
                &&& new.current_context == current
                &&& new.running == running
                &&& views(new.output@) == if line is Some { views(old.output@).push(line->0) } else { views(old.output@) }
            },
        }
    }

    pub fn new() -> (vm: Self)
        ensures
            vm.registers.pc == 0 && vm.registers.flag == 0 && vm.registers.ctx == 0 && vm.registers.err == 0,
            forall|i: int| 0 <= i < 16 ==> vm.registers.r[i] == 0,
            vm.contexts@.len() == 1,
            vm.contexts@[0].id == 0,
            contexts_wf(vm.contexts@),
            vm.current_context == 0,
            vm.program@.len() == 0,
            !vm.running,
            vm.max_steps == 100000,
            vm.step_count == 0,
            vm.execution_trace@.len() == 0,
            vm.output@.len() == 0,
    {
        VirtualMachine {
            registers: VmRegisters::new(),
            contexts: vec![VmContext::new(0)],
            current_context: 0,
            memory: MemoryRegions::new(),
            program: Vec::new(),
            running: false,
            max_steps: 100000,
            step_count: 0,
            execution_trace: Vec::new(),
            output: Vec::new(),
        }
    }

    /// Replaces the program and starts it from its first instruction.
    pub fn load_program(&mut self, program: Vec<Instruction>)
        ensures
            final(self).program@ == program@,
            final(self).registers.pc == 0,
            final(self).registers.r == old(self).registers.r,
            final(self).registers.flag == old(self).registers.flag,
            final(self).registers.ctx == old(self).registers.ctx,
            final(self).registers.err == old(self).registers.err,
            final(self).contexts@ == old(self).contexts@,
            final(self).current_context == old(self).current_context,
            final(self).running == old(self).running,
            final(self).step_count == old(self).step_count,
            final(self).max_steps == old(self).max_steps,
            final(self).execution_trace@ == old(self).execution_trace@,
            final(self).output@ == old(self).output@,
    {
        self.program = program;
        self.registers.pc = 0;
    }
}

/// Bit `i` of `f` after setting bit `b` to `v`.
proof fn lemma_flag_with_bit(f: u64, b: u64, v: bool, i: u64)
    requires
        b < 64,
        i < 64,
    ensures
        bit(flag_with(f, b, v), i) == if i == b { v } else { bit(f, i) },
{
    lemma_bit_update(f, b, i);
}

/// A comparison (`0x13`) of registers `a` and `b` into register `d` writes 1
/// to `d` when the comparison its flags select holds and 0 otherwise (flags
/// 0: equal, 1: not equal, 2: greater, 3: less, 4: greater or equal, 5: less
/// or equal; any other flags: 0), sets the compare-true flag to whether 1
/// was written, the zero flag to whether the two are equal and the negative
/// flag to whether the first is less, and changes no other register or flag.
pub proof fn law_compare(vm: VirtualMachine, ins: Instruction)
    requires
        ins.opcode == 0x13,
        ins.arg1 < 16,
        ins.arg2 < 16,
        ins.arg3 < 16,
    ensures
        (match vm.outcome(ins) {
            Outcome::Done { r, flag, err, jump, line, .. } => {
                let before = vm.registers.r@;
                let a = before[ins.arg1 as int];
                let b = before[ins.arg2 as int];
                let d = ins.arg3 as int;
                &&& r.len() == before.len()
                &&& forall|i: int| 0 <= i < r.len() && i != d ==> r[i] == before[i]
                &&& r[d] == 0 || r[d] == 1
                &&& ins.flags == 0 ==> (r[d] == 1 <==> a == b)
                &&& ins.flags == 1 ==> (r[d] == 1 <==> a != b)
                &&& ins.flags == 2 ==> (r[d] == 1 <==> a > b)
                &&& ins.flags == 3 ==> (r[d] == 1 <==> a < b)
                &&& ins.flags == 4 ==> (r[d] == 1 <==> a >= b)
                &&& ins.flags == 5 ==> (r[d] == 1 <==> a <= b)
                &&& ins.flags > 5 ==> r[d] == 0
                &&& bit(flag, 2) == (r[d] == 1)
                &&& bit(flag, 0) == (a == b)
                &&& bit(flag, 1) == (a < b)
                &&& forall|i: u64| 2 < i < 64 ==> bit(flag, i) == bit(vm.registers.flag, i)
                &&& err == vm.registers.err
                &&& jump is None
                &&& line is None
            },
            Outcome::Fail(_) => false,
        }),
{
    let f = vm.registers.flag;
    let before = vm.registers.r@;
    let a = before[ins.arg1 as int];
    let b = before[ins.arg2 as int];
    let res = comparison(ins.flags, a, b);
    let f0 = flag_with(f, 0, a == b);
    let f1 = flag_with(f0, 1, a < b);
    let f2 = flag_with(f1, 2, res);
    assert forall|i: u64| i < 64 implies bit(f2, i) == (if i == 2 { res } else if i == 1 { a < b } else if i == 0 { a == b } else { bit(f, i) }) by {
        lemma_flag_with_bit(f, 0, a == b, i);
        lemma_flag_with_bit(f0, 1, a < b, i);
        lemma_flag_with_bit(f1, 2, res, i);
    }
    assert(bit(f2, 0) == (a == b) && bit(f2, 1) == (a < b) && bit(f2, 2) == res);
}

/// The jumps and loads. `0x01` jumps to `arg1` when that is an instruction
/// of the program, and otherwise fails with `InvalidPc`; `0x02` jumps to
/// `arg1` exactly when the compare-true flag is set and `arg1` is an
/// instruction, and otherwise goes on; `0x03` sets the halt flag and
/// nothing else. `0x11` loads the number `arg2` into register `arg1`, `0x10`
/// loads `arg1 + 65536 * arg2` into register `arg3`, and `0x12` copies
/// register `arg1` into register `arg2`; each of them fails with
/// `InvalidRegister` on a register past the sixteenth and changes nothing
/// but that one register.
pub proof fn law_jumps_and_loads(vm: VirtualMachine, ins: Instruction)
    ensures
        ({
            let before = vm.registers.r@;
            let f = vm.registers.flag;
            let len = vm.program@.len();
            &&& ins.opcode == 0x01 && (ins.arg1 as int) < len ==> (vm.outcome(ins)
                matches Outcome::Done { r, flag, jump, .. } && r == before && flag == f && jump == Some(ins.arg1 as u32))
            &&& ins.opcode == 0x01 && (ins.arg1 as int) >= len ==> vm.outcome(ins) == Outcome::Fail(VmError::InvalidPc)
            &&& ins.opcode == 0x02 ==> (vm.outcome(ins)
                matches Outcome::Done { r, flag, jump, .. } && r == before && flag == f
                    && jump == if bit(f, 2) && (ins.arg1 as int) < len { Some(ins.arg1 as u32) } else { None })
            &&& ins.opcode == 0x03 ==> (vm.outcome(ins)
                matches Outcome::Done { r, flag, jump, running, .. } && r == before && jump is None && running == vm.running
                    && bit(flag, 4) && forall|i: u64| i < 64 && i != 4 ==> bit(flag, i) == bit(f, i))
            &&& ins.opcode == 0x11 && ins.arg1 < 16 ==> (vm.outcome(ins)
                matches Outcome::Done { r, flag, jump, .. } && r == before.update(ins.arg1 as int, ins.arg2 as i64) && flag == f && jump is None)
            &&& ins.opcode == 0x11 && ins.arg1 >= 16 ==> vm.outcome(ins) == Outcome::Fail(VmError::InvalidRegister(ins.arg1))
            &&& ins.opcode == 0x10 && ins.arg3 < 16 ==> (vm.outcome(ins)
                matches Outcome::Done { r, flag, jump, .. }
                    && r == before.update(ins.arg3 as int, (ins.arg1 as int + 65536 * ins.arg2 as int) as i64) && flag == f && jump is None)
            &&& ins.opcode == 0x10 && ins.arg3 >= 16 ==> vm.outcome(ins) == Outcome::Fail(VmError::InvalidRegister(ins.arg3))
            &&& ins.opcode == 0x12 && ins.arg1 < 16 && ins.arg2 < 16 ==> (vm.outcome(ins)
                matches Outcome::Done { r, flag, jump, .. } && r == before.update(ins.arg2 as int, before[ins.arg1 as int]) && flag == f && jump is None)
            &&& ins.opcode == 0x12 && !(ins.arg1 < 16 && ins.arg2 < 16) ==> vm.outcome(ins) is Fail
        }),
{
    let f = vm.registers.flag;
    assert forall|i: u64| i < 64 implies bit(flag_with(f, 4, true), i) == (if i == 4 { true } else { bit(f, i) }) by {
        lemma_flag_with_bit(f, 4, true, i);
    }
    assert(ins.arg1 as int + 65536 * ins.arg2 as int == ins.arg1 as int + (ins.arg2 as int) * 65536);
}

/// The error, context, return and output instructions, and the opcodes
/// that exist. `0x50` sets the error register to `arg1` and the error flag;
/// `0x51` clears both; `0x52` jumps to `arg1` exactly when the error
/// register is not 0 and `arg1` is an instruction. `0x40` adds a fresh
/// context numbered by the count of contexts, and writes that number to
/// register `arg1` if there is one; `0x41` makes current the context whose
/// number register `arg1` holds, if that context exists; `0x43` removes
/// context `arg1` unless it is the first or does not exist, which fails.
/// `0x70` stops the machine running; `0x71` prints register `arg1` after
/// `Output: `; `0x00` does nothing. None of these touches another register
/// or flag, and an opcode outside the instruction set fails with
/// `InvalidOpcode`.
pub proof fn law_errors_contexts_and_output(vm: VirtualMachine, ins: Instruction)
    ensures
        ({
            let before = vm.registers.r@;
            let f = vm.registers.flag;
            let len = vm.program@.len();
            let cs = ctx_views(vm.contexts@);
            let op = ins.opcode;
            &&& op == 0x00 ==> vm.outcome(ins) == Outcome::Done { r: before, flag: f, err: vm.registers.err, ctxs: cs,
                    current: vm.current_context, running: vm.running, line: None, jump: None }
            &&& op == 0x50 ==> (vm.outcome(ins) matches Outcome::Done { r, flag, err, jump, .. }
                    && r == before && err == ins.arg1 as u64 && bit(flag, 3) && jump is None
                    && forall|i: u64| i < 64 && i != 3 ==> bit(flag, i) == bit(f, i))
            &&& op == 0x51 ==> (vm.outcome(ins) matches Outcome::Done { r, flag, err, jump, .. }
                    && r == before && err == 0 && !bit(flag, 3) && jump is None
                    && forall|i: u64| i < 64 && i != 3 ==> bit(flag, i) == bit(f, i))
            &&& op == 0x52 ==> (vm.outcome(ins) matches Outcome::Done { r, flag, err, jump, .. }
                    && r == before && flag == f && err == vm.registers.err
                    && jump == if vm.registers.err != 0 && (ins.arg1 as int) < len { Some(ins.arg1 as u32) } else { None })
            &&& op == 0x40 ==> (vm.outcome(ins) matches Outcome::Done { r, ctxs, current, jump, .. }
                    && ctxs == cs.push(fresh_context(cs.len() as u64)) && current == vm.current_context && jump is None
                    && r == if ins.arg1 < 16 { before.update(ins.arg1 as int, cs.len() as i64) } else { before })
            &&& op == 0x41 ==> (vm.outcome(ins) matches Outcome::Done { r, ctxs, current, jump, .. }
                    && r == before && ctxs == cs && jump is None
                    && current == if ins.arg1 < 16 && 0 <= before[ins.arg1 as int] < cs.len() {
                        before[ins.arg1 as int] as usize
                    } else {
                        vm.current_context
                    })
            &&& op == 0x43 && 0 < ins.arg1 < cs.len() ==> (vm.outcome(ins) matches Outcome::Done { r, ctxs, jump, .. }
                    && r == before && ctxs == cs.remove(ins.arg1 as int) && jump is None)
            &&& op == 0x43 && !(0 < ins.arg1 < cs.len()) ==> vm.outcome(ins) == Outcome::Fail(VmError::InvalidAddress(ins.arg1 as u32))
            &&& op == 0x70 ==> (vm.outcome(ins) matches Outcome::Done { r, flag, running, jump, line, .. }
                    && r == before && flag == f && !running && jump is None && line is None)
            &&& op == 0x71 ==> (vm.outcome(ins) matches Outcome::Done { r, flag, running, jump, line, .. }
                    && r == before && flag == f && running == vm.running && jump is None
                    && line == if ins.arg1 < 16 { Some("Output: "@ + signed_decimal(before[ins.arg1 as int] as int)) } else { None })
            &&& !(op <= 0x03 || (0x10 <= op <= 0x13) || (0x20 <= op <= 0x23) || (0x30 <= op <= 0x33)
                    || (0x40 <= op <= 0x43) || (0x50 <= op <= 0x52) || op == 0x60 || op == 0x61 || op == 0x70 || op == 0x71)
                ==> vm.outcome(ins) == Outcome::Fail(VmError::InvalidOpcode(op))
        }),
{
    let f = vm.registers.flag;
    assert forall|i: u64| i < 64 implies bit(flag_with(f, 3, true), i) == (if i == 3 { true } else { bit(f, i) }) by {
        lemma_flag_with_bit(f, 3, true, i);
    }
    assert forall|i: u64| i < 64 implies bit(flag_with(f, 3, false), i) == (if i == 3 { false } else { bit(f, i) }) by {
        lemma_flag_with_bit(f, 3, false, i);
    }
}

/// `new` is `old` after one step: the instruction at the program counter,
/// if there is one, done as `outcome` says, recorded in the trace, and the
/// program counter moved to the jump target or to the next instruction.
pub open spec fn stepped(old: &VirtualMachine, new: &VirtualMachine, r: Result<(), VmError>) -> bool {
    &&& new.program@ == old.program@
    &&& new.memory == old.memory
    &&& new.max_steps == old.max_steps
    &&& new.step_count == old.step_count
    &&& contexts_wf(new.contexts@)
    &&& if old.registers.pc >= old.program@.len() {
        &&& r == Err::<(), VmError>(VmError::InvalidPc)
        &&& new.registers == old.registers
        &&& ctx_views(new.contexts@) == ctx_views(old.contexts@)
        &&& new.current_context == old.current_context
        &&& new.running == old.running
        &&& views(new.output@) == views(old.output@)
        &&& new.execution_trace@ == old.execution_trace@
    } else {
        let ins = old.program@[old.registers.pc as int];
        match old.outcome(ins) {
            Outcome::Fail(e) => {
                &&& r == Err::<(), VmError>(e)
                &&& new.registers == old.registers
                &&& ctx_views(new.contexts@) == ctx_views(old.contexts@)
                &&& new.current_context == old.current_context
                &&& new.running == old.running
                &&& views(new.output@) == views(old.output@)
                &&& new.execution_trace@ == old.execution_trace@
            },
            Outcome::Done { r: regs, flag, err, ctxs, current, running, line, jump } => {
                &&& r is Ok
                &&& new.registers.r@ == regs
                &&& new.registers.flag == flag
                &&& new.registers.err == err
                &&& new.registers.ctx == old.registers.ctx
                &&& new.registers.pc == if jump is Some { jump->0 as int } else { old.registers.pc + 1 }
                &&& ctx_views(new.contexts@) == ctxs
                &&& new.current_context == current
                &&& new.running == running
                &&& views(new.output@) == if line is Some { views(old.output@).push(line->0) } else { views(old.output@) }
                &&& new.execution_trace@.len() == old.execution_trace@.len() + 1
                &&& new.execution_trace@.drop_last() == old.execution_trace@
                &&& new.execution_trace@.last().pc_before == old.registers.pc
                &&& new.execution_trace@.last().opcode == ins.opcode
                &&& new.execution_trace@.last().operands == packed(ins)
                &&& new.execution_trace@.last().memory_diff@.len() == 0
                &&& forall|i: int| 0 <= i < 16 ==> #[trigger] new.execution_trace@.last().register_diff@[i]
                        == vstd::wrapping::i64_specs::wrapping_sub(regs[i], old.registers.r@[i])
            },
        }
    }
}

/// Whether a run goes on from `s`: no halt requested, the program counter
/// inside the program, and fewer than `max_steps` steps taken.
pub open spec fn runs_on(s: VirtualMachine) -> bool {
    &&& !bit(s.registers.flag, 4)
    &&& s.registers.pc < s.program@.len()
    &&& s.step_count < s.max_steps
}

/// `t` is a run: each state is the one before after a successful step (see
/// `stepped`), taken while the run went on, with one more step counted.
pub open spec fn is_run(t: Seq<VirtualMachine>) -> bool {
    forall|i: int| 0 <= i < t.len() - 1 ==> {
        &&& runs_on(#[trigger] t[i])
        &&& t[i + 1].step_count == t[i].step_count + 1
        &&& stepped(&t[i], &VirtualMachine { step_count: t[i].step_count, ..t[i + 1] }, Ok(()))
    }
}

/// The machine as a run starts: running, with no step counted.
pub open spec fn run_start(vm: VirtualMachine) -> VirtualMachine {
    VirtualMachine { running: true, step_count: 0, ..vm }
}

/// How a run from `start` ends in `end` with result `r`: after a run of
/// successful steps to a state `last`, either the step from `last` fails (the
/// run went on there, and `end` is that step's failure), or the run stops
/// there: at the step limit with an error, else with success and the
/// machine no longer running.
pub open spec fn ran(start: VirtualMachine, end: VirtualMachine, r: Result<(), VmError>) -> bool {
    exists|t: Seq<VirtualMachine>| #![trigger is_run(t)] {
        &&& t.len() >= 1
        &&& t[0] == start
        &&& is_run(t)
        &&& if runs_on(t.last()) {
            r is Err && stepped(&t.last(), &end, r)
        } else if t.last().step_count >= t.last().max_steps {
            r == Err::<(), VmError>(VmError::ExecutionLimitExceeded) && end == t.last()
        } else {
            r is Ok && end == VirtualMachine { running: false, ..t.last() }
        }
    }
}

impl VirtualMachine {
    /// Runs from the first instruction until a halt is requested, the
    /// program counter leaves the program, or `max_steps` steps were taken
    /// (an error); stops at the first instruction that fails. See `ran`.
    pub fn execute(&mut self) -> (r: Result<(), VmError>)
        requires
            contexts_wf(old(self).contexts@),
            old(self).program@.len() < u32::MAX,
        ensures
            ran(run_start(*old(self)), *final(self), r),
            contexts_wf(final(self).contexts@),
            final(self).program@ == old(self).program@,
            final(self).step_count <= final(self).max_steps,
            r is Ok ==> {
                &&& bit(final(self).registers.flag, 4) || final(self).registers.pc >= final(self).program@.len()
                &&& final(self).step_count < final(self).max_steps
                &&& !final(self).running
            },
            r == Err::<(), VmError>(VmError::ExecutionLimitExceeded) ==> final(self).step_count >= final(self).max_steps,
    {
        self.running = true;
        self.step_count = 0;
        let ghost start = *self;
        assert(start == run_start(*old(self)));
        let ghost mut t: Seq<VirtualMachine> = seq![*self];
        while !self.registers.is_halt_requested() && self.registers.pc < self.program.len() as u32
            && self.step_count < self.max_steps
            invariant
                contexts_wf(self.contexts@),
                self.program@ == old(self).program@,
                self.program@.len() < u32::MAX,
                self.step_count <= self.max_steps,
                start == run_start(*old(self)),
                t.len() >= 1,
                t[0] == start,
                is_run(t),
                t.last() == *self,
            decreases self.max_steps - self.step_count,
        {
            let ghost before = *self;
            assert(runs_on(before));
            match self.step() {
                Ok(()) => {},
                Err(e) => {
                    assert(ran(start, *self, Err(e))) by {
                        assert(t.last() == before);
                        assert(runs_on(t.last()));
                        assert(stepped(&t.last(), &*self, Err(e)));
                        assert(is_run(t));
                    }
                    return Err(e);
                },
            }
            let ghost mid = *self;
            self.step_count = self.step_count + 1;
            proof {
                assert(VirtualMachine { step_count: before.step_count, ..*self } == mid);
                let t2 = t.push(*self);
                assert forall|i: int| 0 <= i < t2.len() - 1 implies {
                    &&& runs_on(#[trigger] t2[i])
                    &&& t2[i + 1].step_count == t2[i].step_count + 1
                    &&& stepped(&t2[i], &VirtualMachine { step_count: t2[i].step_count, ..t2[i + 1] }, Ok(()))
                } by {
                    if i < t.len() - 1 {
                        assert(t2[i] == t[i] && t2[i + 1] == t[i + 1]);
                    } else {
                        assert(t2[i] == before);
                        assert(t2[i + 1] == *self);
                    }
                }
                t = t2;
            }
        }
        assert(!runs_on(t.last()));
        if self.step_count >= self.max_steps {
            assert(ran(start, *self, Err(VmError::ExecutionLimitExceeded)));
            return Err(VmError::ExecutionLimitExceeded);
        }
        self.running = false;
        assert(ran(start, *self, Ok(())));
        Ok(())
    }

    /// Executes the instruction at the program counter.
    pub fn step(&mut self) -> (r: Result<(), VmError>)
        requires
            contexts_wf(old(self).contexts@),
            old(self).program@.len() < u32::MAX,
        ensures
            stepped(old(self), final(self), r),
    {
        let instruction = match self.fetch() {
            Ok(i) => i,
            Err(e) => {
                return Err(e);
            },
        };
        let pc_before = self.registers.pc;
        let before = self.registers.r;
        let jumped = match self.execute_instruction(&instruction) {
            Ok(j) => j,
            Err(e) => {
                return Err(e);
            },
        };
        let mut register_diff = [0i64; 16];
        let mut i: usize = 0;
        while i < 16
            invariant
                i <= 16,
                forall|k: int| 0 <= k < i ==> #[trigger] register_diff@[k]
                    == vstd::wrapping::i64_specs::wrapping_sub(self.registers.r@[k], before@[k]),
            decreases 16 - i,
        {
            register_diff.set(i, self.registers.r[i].wrapping_sub(before[i]));
            i += 1;
        }
        let operands = (instruction.arg1 as u64) | ((instruction.arg2 as u64) << 16u64)
            | ((instruction.arg3 as u64) << 32u64) | ((instruction.flags as u64) << 48u64);
        let entry = ExecutionTraceEntry {
            pc_before,
            opcode: instruction.opcode,
            operands,
            register_diff,
            memory_diff: Vec::new(),
        };
        self.execution_trace.push(entry);
        if !jumped {
            self.registers.pc = self.registers.pc + 1;
        }
        proof {
            let old_vm = old(self);
            let ins = old_vm.program@[old_vm.registers.pc as int];
            assert(instruction == ins);
            match old_vm.outcome(ins) {
                Outcome::Fail(e) => {
                    assert(false);
                },
                Outcome::Done { r: regs, flag, err, ctxs, current, running, line, jump } => {
                    assert(self.registers.r@ == regs);
                    assert(self.registers.flag == flag);
                    assert(self.registers.pc == if jump is Some { jump->0 as int } else { old_vm.registers.pc + 1 });
                    assert(ctx_views(self.contexts@) == ctxs);
                    assert(self.execution_trace@.drop_last() == old_vm.execution_trace@);
                    assert(self.execution_trace@.last().operands == packed(ins));
                    assert(views(self.output@) == if line is Some { views(old_vm.output@).push(line->0) } else { views(old_vm.output@) });
                },
            }
        }
        Ok(())
    }

    fn fetch(&self) -> (r: Result<Instruction, VmError>)
        ensures
            self.registers.pc >= self.program@.len() ==> r == Err::<Instruction, VmError>(VmError::InvalidPc),
            self.registers.pc < self.program@.len() ==> r == Ok::<Instruction, VmError>(self.program@[self.registers.pc as int]),
    {
        if self.registers.pc as usize >= self.program.len() {
            return Err(VmError::InvalidPc);
        }
        Ok(self.program[self.registers.pc as usize])
    }

    fn execute_instruction(&mut self, instruction: &Instruction) -> (r: Result<bool, VmError>)
        requires
            contexts_wf(old(self).contexts@),
        ensures
            Self::applied(old(self), final(self), old(self).outcome(*instruction), r),
    {
        let op = instruction.opcode;
        if op == 0x00 {
            assert(ctx_views(self.contexts@) == ctx_views(self.contexts@));
            Ok(false)
        } else if op == 0x01 || op == 0x02 || op == 0x52 {
            self.op_jump(instruction)
        } else if op == 0x03 {
            self.registers.set_halt_flag(true);
            Ok(false)
        } else if op == 0x10 || op == 0x11 || op == 0x12 {
            self.op_load(instruction)
        } else if op == 0x13 {
            self.op_compare(instruction)
        } else if (0x20 <= op && op <= 0x23) || (0x30 <= op && op <= 0x33) || op == 0x60 || op == 0x61 {
            self.op_notice(instruction)
        } else if 0x40 <= op && op <= 0x43 {
            self.op_context(instruction)
        } else if op == 0x50 {
            self.registers.err = instruction.arg1 as u64;
            self.registers.set_error_flag(true);
            Ok(false)
        } else if op == 0x51 {
            self.registers.err = 0;
            self.registers.set_error_flag(false);
            Ok(false)
        } else if op == 0x70 {
            self.running = false;
            Ok(false)
        } else if op == 0x71 {
            self.op_output(instruction)
        } else {
            Err(VmError::InvalidOpcode(op))
        }
    }

    /// JMP, JMP_IF and ERR_CHECK.
    fn op_jump(&mut self, instruction: &Instruction) -> (r: Result<bool, VmError>)
        requires
            contexts_wf(old(self).contexts@),
            instruction.opcode == 0x01 || instruction.opcode == 0x02 || instruction.opcode == 0x52,
        ensures
            Self::applied(old(self), final(self), old(self).outcome(*instruction), r),
    {
        let target = instruction.arg1 as u32;
        let in_range = (target as usize) < self.program.len();
        if instruction.opcode == 0x01 {
            if in_range {
                self.registers.pc = target;
                return Ok(true);
            }
            Err(VmError::InvalidPc)
        } else {
            let cond = if instruction.opcode == 0x02 { self.registers.is_compare_true() } else { self.registers.err != 0 };
            if cond && in_range {
                self.registers.pc = target;
                return Ok(true);
            }
            Ok(false)
        }
    }

    /// LOAD_SYM, LOAD_NUM and MOVE.
    fn op_load(&mut self, instruction: &Instruction) -> (r: Result<bool, VmError>)
        requires
            contexts_wf(old(self).contexts@),
            instruction.opcode == 0x10 || instruction.opcode == 0x11 || instruction.opcode == 0x12,
        ensures
            Self::applied(old(self), final(self), old(self).outcome(*instruction), r),
    {
        if instruction.opcode == 0x10 {
            let a = instruction.arg1;
            let b = instruction.arg2;
            let symbol_id = (a as u32) | ((b as u32) << 16u32);
            assert(symbol_id == a as u32 + (b as u32) * 65536u32) by (bit_vector)
                requires
                    symbol_id == (a as u32) | ((b as u32) << 16u32),
            ;
            let dest_reg = instruction.arg3 as usize;
            if dest_reg >= 16 {
                return Err(VmError::InvalidRegister(instruction.arg3));
            }
            self.registers.r.set(dest_reg, symbol_id as i64);
            Ok(false)
        } else if instruction.opcode == 0x11 {
            let dest_reg = instruction.arg1 as usize;
            if dest_reg >= 16 {
                return Err(VmError::InvalidRegister(instruction.arg1));
            }
            self.registers.r.set(dest_reg, instruction.arg2 as i64);
            Ok(false)
        } else {
            let src_reg = instruction.arg1 as usize;
            let dest_reg = instruction.arg2 as usize;
            if dest_reg >= 16 || src_reg >= 16 {
                return Err(VmError::InvalidRegister(if dest_reg >= 16 { instruction.arg2 } else { instruction.arg1 }));
            }
            let v = self.registers.r[src_reg];
            self.registers.r.set(dest_reg, v);
            Ok(false)
        }
    }

    /// COMPARE: sets the zero, negative and comparison flags and writes 1 or 0.
    fn op_compare(&mut self, instruction: &Instruction) -> (r: Result<bool, VmError>)
        requires
            contexts_wf(old(self).contexts@),
            instruction.opcode == 0x13,
        ensures
            Self::applied(old(self), final(self), old(self).outcome(*instruction), r),
    {
        let reg_a = instruction.arg1 as usize;
        let reg_b = instruction.arg2 as usize;
        let result_reg = instruction.arg3 as usize;
        if reg_a >= 16 || reg_b >= 16 || result_reg >= 16 {
            return Err(VmError::InvalidRegister(instruction.arg1));
        }
        let val_a = self.registers.r[reg_a];
        let val_b = self.registers.r[reg_b];
        let flags = instruction.flags;
        let result = if flags == 0 {
            val_a == val_b
        } else if flags == 1 {
            val_a != val_b
        } else if flags == 2 {
            val_a > val_b
        } else if flags == 3 {
            val_a < val_b
        } else if flags == 4 {
            val_a >= val_b
        } else if flags == 5 {
            val_a <= val_b
        } else {
            false
        };
        self.registers.set_zero_flag(val_a == val_b);
        self.registers.set_negative_flag(val_a < val_b);
        self.registers.set_compare_true_flag(result);
        self.registers.r.set(result_reg, if result { 1 } else { 0 });
        Ok(false)
    }

    /// The graph, rule and external instructions: each prints what it would do.
    fn op_notice(&mut self, instruction: &Instruction) -> (r: Result<bool, VmError>)
        requires
            contexts_wf(old(self).contexts@),
            (0x20 <= instruction.opcode && instruction.opcode <= 0x23) || (0x30 <= instruction.opcode && instruction.opcode <= 0x33)
                || instruction.opcode == 0x60 || instruction.opcode == 0x61,
        ensures
            Self::applied(old(self), final(self), old(self).outcome(*instruction), r),
    {
        let op = instruction.opcode;
        let line = if op == 0x20 {
            owned("Creating graph node")
        } else if op == 0x21 {
            owned("Creating graph edge")
        } else if op == 0x22 {
            owned("Performing graph match")
        } else if op == 0x23 {
            owned("Traversing graph")
        } else if op == 0x30 {
            owned("Loading rule")
        } else if op == 0x31 {
            owned("Evaluating rule")
        } else if op == 0x32 {
            owned("Firing rule")
        } else if op == 0x33 {
            owned("Setting rule priority")
        } else if op == 0x60 {
            let mut l = owned("Calling external function with ID: ");
            l.append(u64_to_decimal(instruction.arg1 as u64).as_str());
            l
        } else {
            owned("Binding external function")
        };
        let ghost before = views(self.output@);
        self.output.push(line);
        assert(views(self.output@) =~= before.push(notice(op, instruction.arg1)));
        Ok(false)
    }

    /// OUTPUT: prints a register.
    fn op_output(&mut self, instruction: &Instruction) -> (r: Result<bool, VmError>)
        requires
            contexts_wf(old(self).contexts@),
            instruction.opcode == 0x71,
        ensures
            Self::applied(old(self), final(self), old(self).outcome(*instruction), r),
    {
        let reg = instruction.arg1 as usize;
        if reg < 16 {
            let mut line = owned("Output: ");
            line.append(i64_to_decimal(self.registers.r[reg]).as_str());
            let ghost before = views(self.output@);
            self.output.push(line);
            assert(views(self.output@) =~= before.push("Output: "@ + signed_decimal(self.registers.r[reg as int] as int)));
        }
        Ok(false)
    }

    /// A copy of context `ctx_id` under the next free id, if there is such a context.
    fn copy_context(&self, ctx_id: u64) -> (r: Option<VmContext>)
        requires
            contexts_wf(self.contexts@),
        ensures
            (ctx_id as int) < self.contexts@.len() ==> r is Some && r->0.variables.wf()
                && r->0.ctx_view() == (CtxV { id: self.contexts@.len() as u64, ..self.contexts@[ctx_id as int].ctx_view() }),
            (ctx_id as int) >= self.contexts@.len() ==> r is None,
    {
        if (ctx_id as usize) < self.contexts.len() && ctx_id <= usize::MAX as u64 {
            Some(self.contexts[ctx_id as usize].copy_as(self.contexts.len() as u64))
        } else {
            None
        }
    }

    /// CTX_CREATE, CTX_SWITCH, CTX_CLONE and CTX_DESTROY.
    fn op_context(&mut self, instruction: &Instruction) -> (r: Result<bool, VmError>)
        requires
            contexts_wf(old(self).contexts@),
            0x40 <= instruction.opcode && instruction.opcode <= 0x43,
        ensures
            Self::applied(old(self), final(self), old(self).outcome(*instruction), r),
    {
        let op = instruction.opcode;
        let ghost cv = ctx_views(self.contexts@);
        if op == 0x40 {
            let new_ctx_id = self.contexts.len() as u64;
            let c = VmContext::new(new_ctx_id);
            assert(c.ctx_view().r =~= Seq::new(16, |i: int| 0i64));
            assert(c.ctx_view() == fresh_context(new_ctx_id));
            self.contexts.push(c);
            assert(ctx_views(self.contexts@) =~= cv.push(fresh_context(new_ctx_id)));
            let dest_reg = instruction.arg1 as usize;
            if dest_reg < 16 {
                self.registers.r.set(dest_reg, new_ctx_id as i64);
            }
            Ok(false)
        } else if op == 0x41 {
            let reg = instruction.arg1 as usize;
            if reg < 16 {
                let v = self.registers.r[reg];
                if 0 <= v && (v as u64) < self.contexts.len() as u64 {
                    self.current_context = v as usize;
                }
            }
            Ok(false)
        } else if op == 0x42 {
            let src_ctx_id = instruction.arg1 as usize;
            if src_ctx_id < self.contexts.len() {
                match self.copy_context(src_ctx_id as u64) {
                    Some(cloned_ctx) => {
                        self.contexts.push(cloned_ctx);
                        assert(ctx_views(self.contexts@) =~= cv.push(CtxV { id: cv.len() as u64, ..cv[src_ctx_id as int] }));
                        Ok(false)
                    },
                    None => Err(VmError::InvalidAddress(src_ctx_id as u32)),
                }
            } else {
                Err(VmError::InvalidAddress(instruction.arg1 as u32))
            }
        } else {
            let ctx_id = instruction.arg1 as usize;
            if ctx_id < self.contexts.len() && ctx_id != 0 {
                self.contexts.remove(ctx_id);
                assert(ctx_views(self.contexts@) =~= cv.remove(ctx_id as int));
                Ok(false)
            } else {
                Err(VmError::InvalidAddress(instruction.arg1 as u32))
            }
        }
    }
}

/// The state line: program counter, flags in hexadecimal, context, error
/// register and the first four general registers.
pub open spec fn state_line(r: VmRegisters) -> Seq<char> {
    "PC: "@ + decimal(r.pc as nat) + ", FLAG: 0x"@ + hex(r.flag as nat) + ", CTX: "@ + decimal(r.ctx as nat)
        + ", ERR: "@ + decimal(r.err as nat) + ", R0-R3: ["@ + signed_decimal(r.r@[0] as int) + ", "@
        + signed_decimal(r.r@[1] as int) + ", "@ + signed_decimal(r.r@[2] as int) + ", "@
        + signed_decimal(r.r@[3] as int) + "]"@
}

impl VirtualMachine {
    fn push_context(&mut self, new_context: VmContext)
        ensures
            final(self).contexts@ == old(self).contexts@.push(new_context),
    {
        self.contexts.push(new_context);
    }

    /// Removes the last context, unless it is the only one.
    fn pop_context(&mut self) -> (r: Option<VmContext>)
        ensures
            old(self).contexts@.len() > 1 ==> r == Some(old(self).contexts@.last())
                && final(self).contexts@ == old(self).contexts@.drop_last(),
            old(self).contexts@.len() <= 1 ==> r is None && final(self).contexts@ == old(self).contexts@,
    {
        if self.contexts.len() > 1 {
            self.contexts.pop()
        } else {
            None
        }
    }

    pub fn trace_state(&self) -> (s: String)
        ensures
            s@ == state_line(self.registers),
    {
        let mut s = owned("PC: ");
        s.append(u64_to_decimal(self.registers.pc as u64).as_str());
        s.append(", FLAG: 0x");
        s.append(u64_to_hex(self.registers.flag).as_str());
        s.append(", CTX: ");
        s.append(u64_to_decimal(self.registers.ctx).as_str());
        s.append(", ERR: ");
        s.append(u64_to_decimal(self.registers.err).as_str());
        s.append(", R0-R3: [");
        s.append(i64_to_decimal(self.registers.r[0]).as_str());
        s.append(", ");
        s.append(i64_to_decimal(self.registers.r[1]).as_str());
        s.append(", ");
        s.append(i64_to_decimal(self.registers.r[2]).as_str());
        s.append(", ");
        s.append(i64_to_decimal(self.registers.r[3]).as_str());
        s.append("]");
        s
    }

    pub fn trace_registers(&self) -> (r: [i64; 16])
        ensures
            r@ == self.registers.r@,
    {
        self.registers.r
    }

    /// Copies of the contexts.
    pub fn trace_context(&self) -> (r: Vec<VmContext>)
        requires
            contexts_wf(self.contexts@),
        ensures
            ctx_views(r@) == ctx_views(self.contexts@),
            contexts_wf(r@),
    {
        let mut r: Vec<VmContext> = Vec::new();
        let mut i: usize = 0;
        while i < self.contexts.len()
            invariant
                contexts_wf(self.contexts@),
                i <= self.contexts@.len(),
                ctx_views(r@) == ctx_views(self.contexts@).take(i as int),
                contexts_wf(r@),
            decreases self.contexts@.len() - i,
        {
            let c = self.contexts[i].copy_as(self.contexts[i].id);
            let ghost before = ctx_views(r@);
            r.push(c);
            assert(ctx_views(r@) =~= before.push(self.contexts@[i as int].ctx_view()));
            assert(ctx_views(self.contexts@).take(i + 1) =~= ctx_views(self.contexts@).take(i as int).push(self.contexts@[i as int].ctx_view()));
            i += 1;
        }
        assert(ctx_views(self.contexts@).take(self.contexts@.len() as int) =~= ctx_views(self.contexts@));
        r
    }

    pub fn trace_graph(&self) -> (s: String)
        ensures
            s@ == "Graph trace not implemented in this version"@,
    {
        owned("Graph trace not implemented in this version")
    }

    /// General register `reg`, if there is one.
    pub fn get_register(&self, reg: usize) -> (r: Option<i64>)
        ensures
            reg < 16 ==> r == Some(self.registers.r@[reg as int]),
            reg >= 16 ==> r is None,
    {
        if reg < 16 {
            Some(self.registers.r[reg])
        } else {
            None
        }
    }

    /// Sets general register `reg`, if there is one.
    pub fn set_register(&mut self, reg: usize, value: i64) -> (r: Result<(), VmError>)
        ensures
            reg < 16 ==> r is Ok && final(self).registers.r@ == old(self).registers.r@.update(reg as int, value),
            reg >= 16 ==> r == Err::<(), VmError>(VmError::InvalidRegister(reg as u16)) && final(self).registers.r == old(self).registers.r,
            final(self).registers.pc == old(self).registers.pc,
            final(self).registers.flag == old(self).registers.flag,
            final(self).registers.ctx == old(self).registers.ctx,
            final(self).registers.err == old(self).registers.err,
            final(self).contexts@ == old(self).contexts@,
            final(self).program@ == old(self).program@,
    {
        if reg >= 16 {
            return Err(VmError::InvalidRegister(reg as u16));
        }
        self.registers.r.set(reg, value);
        Ok(())
    }
}

} // verus!
