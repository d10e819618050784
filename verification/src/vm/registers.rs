//! The register file of the virtual machine, its contexts and memory regions.
use vstd::prelude::*;
use crate::maps::NameMap;

verus! {

/// Whether bit `i` of `f` is set.
pub open spec fn bit(f: u64, i: u64) -> bool {
    (f >> i) & 1 == 1
}

pub proof fn lemma_bit_update(f: u64, b: u64, i: u64)
    by (bit_vector)
    requires
        b < 64,
        i < 64,
    ensures
        ((f | (1u64 << b)) >> i) & 1 == (if i == b { 1u64 } else { (f >> i) & 1 }),
        ((f & !(1u64 << b)) >> i) & 1 == (if i == b { 0u64 } else { (f >> i) & 1 }),
        (f >> i) & 1 == 1 || (f >> i) & 1 == 0,
{
}

pub proof fn lemma_bit_test(f: u64, b: u64)
    by (bit_vector)
    requires
        b < 64,
    ensures
        ((f & (1u64 << b)) != 0) == ((f >> b) & 1 == 1),
{
}

/// The flags `f` after setting bit `b` to `v`.
pub open spec fn flag_with(f: u64, b: u64, v: bool) -> u64 {
    if v { f | (1u64 << b) } else { f & !(1u64 << b) }
}

/// `f` with bit `b` set to `v`.
fn with_bit(f: u64, b: u64, v: bool) -> (r: u64)
    requires
        b < 64,
    ensures
        r == flag_with(f, b, v),
        bit(r, b) == v,
        forall|i: u64| i < 64 && i != b ==> bit(r, i) == bit(f, i),
{
    let r = if v { f | (1u64 << b) } else { f & !(1u64 << b) };
    proof {
        lemma_bit_update(f, b, b);
        assert forall|i: u64| i < 64 && i != b implies bit(r, i) == bit(f, i) by {
            lemma_bit_update(f, b, i);
        }
    }
    r
}

fn test_bit(f: u64, b: u64) -> (v: bool)
    requires
        b < 64,
    ensures
        v == bit(f, b),
{
    proof {
        lemma_bit_test(f, b);
    }
    (f & (1u64 << b)) != 0
}

/// General registers R0 to R15, the program counter (an instruction index), the
/// flags (bit 0 zero, 1 negative, 2 comparison true, 3 error, 4 halt requested),
/// the current context and the error register.
#[derive(Debug, Clone, Copy, PartialEq, Eq)]
pub struct VmRegisters {
    pub r: [i64; 16],
    pub pc: u32,
    pub flag: u64,
    pub ctx: u64,
    pub err: u64,
}

impl VmRegisters {
    pub fn new() -> (r: Self)
        ensures
            forall|i: int| 0 <= i < 16 ==> r.r[i] == 0,
            r.pc == 0,
            r.flag == 0,
            r.ctx == 0,
            r.err == 0,
    {
        VmRegisters { r: [0; 16], pc: 0, flag: 0, ctx: 0, err: 0 }
    }

    pub open spec fn only_flag_bit_changed(old_r: VmRegisters, new_r: VmRegisters, b: u64, v: bool) -> bool {
        &&& bit(new_r.flag, b) == v
        &&& forall|i: u64| i < 64 && i != b ==> bit(new_r.flag, i) == bit(old_r.flag, i)
        &&& new_r.r == old_r.r
        &&& new_r.pc == old_r.pc
        &&& new_r.ctx == old_r.ctx
        &&& new_r.err == old_r.err
    }

    pub fn set_zero_flag(&mut self, value: bool)
        ensures
            Self::only_flag_bit_changed(*old(self), *final(self), 0, value),
            final(self).flag == flag_with(old(self).flag, 0, value),
    {
        self.flag = with_bit(self.flag, 0, value);
    }

    pub fn set_negative_flag(&mut self, value: bool)
        ensures
            Self::only_flag_bit_changed(*old(self), *final(self), 1, value),
            final(self).flag == flag_with(old(self).flag, 1, value),
    {
        self.flag = with_bit(self.flag, 1, value);
    }

    pub fn set_compare_true_flag(&mut self, value: bool)
        ensures
            Self::only_flag_bit_changed(*old(self), *final(self), 2, value),
            final(self).flag == flag_with(old(self).flag, 2, value),
    {
        self.flag = with_bit(self.flag, 2, value);
    }

    pub fn set_error_flag(&mut self, value: bool)
        ensures
            Self::only_flag_bit_changed(*old(self), *final(self), 3, value),
            final(self).flag == flag_with(old(self).flag, 3, value),
    {
        self.flag = with_bit(self.flag, 3, value);
    }

    pub fn set_halt_flag(&mut self, value: bool)
        ensures
            Self::only_flag_bit_changed(*old(self), *final(self), 4, value),
            final(self).flag == flag_with(old(self).flag, 4, value),
    {
        self.flag = with_bit(self.flag, 4, value);
    }

    pub fn is_zero(&self) -> (b: bool)
        ensures
            b == bit(self.flag, 0),
    {
        test_bit(self.flag, 0)
    }

    pub fn is_negative(&self) -> (b: bool)
        ensures
            b == bit(self.flag, 1),
    {
        test_bit(self.flag, 1)
    }

    pub fn is_compare_true(&self) -> (b: bool)
        ensures
            b == bit(self.flag, 2),
    {
        test_bit(self.flag, 2)
    }

    pub fn has_error(&self) -> (b: bool)
        ensures
            b == bit(self.flag, 3),
    {
        test_bit(self.flag, 3)
    }

    pub fn is_halt_requested(&self) -> (b: bool)
        ensures
            b == bit(self.flag, 4),
    {
        test_bit(self.flag, 4)
    }
}

/// A flag that is set reads back as set, and setting it leaves the other flags as they were.
pub proof fn law_flag_set_then_read(old_r: VmRegisters, new_r: VmRegisters, b: u64, v: bool, other: u64)
    requires
        VmRegisters::only_flag_bit_changed(old_r, new_r, b, v),
        other < 64,
        other != b,
    ensures
        bit(new_r.flag, b) == v,
        bit(new_r.flag, other) == bit(old_r.flag, other),
{
}

/// An execution context: its registers, a kilobyte of memory and named integers.
#[derive(Debug, Clone)]
pub struct VmContext {
    pub id: u64,
    pub registers: VmRegisters,
    pub memory: Vec<u8>,
    pub variables: NameMap<i64>,
}

impl VmContext {
    pub fn new(id: u64) -> (c: Self)
        ensures
            c.id == id,
            c.registers.flag == 0 && c.registers.pc == 0 && c.registers.ctx == 0 && c.registers.err == 0,
            forall|i: int| 0 <= i < 16 ==> c.registers.r[i] == 0,
            c.memory@ == Seq::new(1024, |i: int| 0u8),
            c.variables.wf(),
            c.variables@ == Map::<Seq<char>, i64>::empty(),
    {
        let memory = zeroed(1024);
        VmContext { id, registers: VmRegisters::new(), memory, variables: NameMap::new() }
    }
}

/// `n` zero bytes.
pub fn zeroed(n: usize) -> (v: Vec<u8>)
    ensures
        v@ == Seq::new(n as nat, |i: int| 0u8),
{
    let mut v: Vec<u8> = Vec::new();
    let mut i: usize = 0;
    while i < n
        invariant
            i <= n,
            v@ == Seq::new(i as nat, |k: int| 0u8),
        decreases n - i,
    {
        v.push(0);
        i += 1;
        assert(v@ =~= Seq::new(i as nat, |k: int| 0u8));
    }
    v
}

/// The memory regions: read-only code and constants, a 4 KiB stack, a 100 KiB heap
/// and a kilobyte of metadata.
#[derive(Debug, Clone)]
pub struct MemoryRegions {
    pub code: Vec<u8>,
    pub constants: Vec<u8>,
    pub stack: Vec<u8>,
    pub heap: Vec<u8>,
    pub meta: Vec<u8>,
}

impl MemoryRegions {
    pub fn new() -> (m: Self)
        ensures
            m.code@ == Seq::<u8>::empty(),
            m.constants@ == Seq::<u8>::empty(),
            m.stack@ == Seq::new(4096, |i: int| 0u8),
            m.heap@ == Seq::new(102400, |i: int| 0u8),
            m.meta@ == Seq::new(1024, |i: int| 0u8),
    {
        MemoryRegions {
            code: Vec::new(),
            constants: Vec::new(),
            stack: zeroed(4096),
            heap: zeroed(102400),
            meta: zeroed(1024),
        }
    }
}

} // verus!
