//! Bytecode instructions of the virtual machine.
use vstd::prelude::*;

verus! {

/// A fixed-width instruction: an opcode, three arguments and flags.
#[derive(Debug, Clone, Copy, PartialEq, Eq)]
pub struct Instruction {
    pub opcode: u8,
    pub arg1: u16,
    pub arg2: u16,
    pub arg3: u16,
    pub flags: u16,
}

impl Instruction {
    pub fn new(opcode: u8, arg1: u16, arg2: u16, arg3: u16, flags: u16) -> (i: Self)
        ensures
            i == (Instruction { opcode, arg1, arg2, arg3, flags }),
    {
        Instruction { opcode, arg1, arg2, arg3, flags }
    }
}

/// The operations of the virtual machine.
#[derive(Debug, Clone, Copy, PartialEq, Eq, Hash)]
pub enum Opcode {
    Nop,
    Jmp,
    JmpIf,
    Halt,
    LoadSym,
    LoadNum,
    Move,
    Compare,
    GraphNodeCreate,
    GraphEdgeCreate,
    GraphMatch,
    GraphTraverse,
    RuleLoad,
    RuleEval,
    RuleFire,
    RulePrioritySet,
    CtxCreate,
    CtxSwitch,
    CtxClone,
    CtxDestroy,
    ErrSet,
    ErrClear,
    ErrCheck,
    ExtCall,
    ExtBind,
    Return,
    Output,
}

impl Opcode {
    pub open spec fn spec_code(self) -> u8 {
        match self {
            Opcode::Nop => 0x00,
            Opcode::Jmp => 0x01,
            Opcode::JmpIf => 0x02,
            Opcode::Halt => 0x03,
            Opcode::LoadSym => 0x10,
            Opcode::LoadNum => 0x11,
            Opcode::Move => 0x12,
            Opcode::Compare => 0x13,
            Opcode::GraphNodeCreate => 0x20,
            Opcode::GraphEdgeCreate => 0x21,
            Opcode::GraphMatch => 0x22,
            Opcode::GraphTraverse => 0x23,
            Opcode::RuleLoad => 0x30,
            Opcode::RuleEval => 0x31,
            Opcode::RuleFire => 0x32,
            Opcode::RulePrioritySet => 0x33,
            Opcode::CtxCreate => 0x40,
            Opcode::CtxSwitch => 0x41,
            Opcode::CtxClone => 0x42,
            Opcode::CtxDestroy => 0x43,
            Opcode::ErrSet => 0x50,
            Opcode::ErrClear => 0x51,
            Opcode::ErrCheck => 0x52,
            Opcode::ExtCall => 0x60,
            Opcode::ExtBind => 0x61,
            Opcode::Return => 0x70,
            Opcode::Output => 0x71,
        }
    }

    /// The opcode byte.
    pub fn code(self) -> (c: u8)
        ensures
            c == self.spec_code(),
    {
        match self {
            Opcode::Nop => 0x00,
            Opcode::Jmp => 0x01,
            Opcode::JmpIf => 0x02,
            Opcode::Halt => 0x03,
            Opcode::LoadSym => 0x10,
            Opcode::LoadNum => 0x11,
            Opcode::Move => 0x12,
            Opcode::Compare => 0x13,
            Opcode::GraphNodeCreate => 0x20,
            Opcode::GraphEdgeCreate => 0x21,
            Opcode::GraphMatch => 0x22,
            Opcode::GraphTraverse => 0x23,
            Opcode::RuleLoad => 0x30,
            Opcode::RuleEval => 0x31,
            Opcode::RuleFire => 0x32,
            Opcode::RulePrioritySet => 0x33,
            Opcode::CtxCreate => 0x40,
            Opcode::CtxSwitch => 0x41,
            Opcode::CtxClone => 0x42,
            Opcode::CtxDestroy => 0x43,
            Opcode::ErrSet => 0x50,
            Opcode::ErrClear => 0x51,
            Opcode::ErrCheck => 0x52,
            Opcode::ExtCall => 0x60,
            Opcode::ExtBind => 0x61,
            Opcode::Return => 0x70,
            Opcode::Output => 0x71,
        }
    }

    pub open spec fn spec_name(self) -> Seq<char> {
        match self {
            Opcode::Nop => "Nop"@,
            Opcode::Jmp => "Jmp"@,
            Opcode::JmpIf => "JmpIf"@,
            Opcode::Halt => "Halt"@,
            Opcode::LoadSym => "LoadSym"@,
            Opcode::LoadNum => "LoadNum"@,
            Opcode::Move => "Move"@,
            Opcode::Compare => "Compare"@,
            Opcode::GraphNodeCreate => "GraphNodeCreate"@,
            Opcode::GraphEdgeCreate => "GraphEdgeCreate"@,
            Opcode::GraphMatch => "GraphMatch"@,
            Opcode::GraphTraverse => "GraphTraverse"@,
            Opcode::RuleLoad => "RuleLoad"@,
            Opcode::RuleEval => "RuleEval"@,
            Opcode::RuleFire => "RuleFire"@,
            Opcode::RulePrioritySet => "RulePrioritySet"@,
            Opcode::CtxCreate => "CtxCreate"@,
            Opcode::CtxSwitch => "CtxSwitch"@,
            Opcode::CtxClone => "CtxClone"@,
            Opcode::CtxDestroy => "CtxDestroy"@,
            Opcode::ErrSet => "ErrSet"@,
            Opcode::ErrClear => "ErrClear"@,
            Opcode::ErrCheck => "ErrCheck"@,
            Opcode::ExtCall => "ExtCall"@,
            Opcode::ExtBind => "ExtBind"@,
            Opcode::Return => "Return"@,
            Opcode::Output => "Output"@,
        }
    }

    /// The name of the operation.
    pub fn name(self) -> (s: &'static str)
        ensures
            s@ == self.spec_name(),
    {
        match self {
            Opcode::Nop => {
                proof { reveal_strlit("Nop"); }
                "Nop"
            },
            Opcode::Jmp => {
                proof { reveal_strlit("Jmp"); }
                "Jmp"
            },
            Opcode::JmpIf => {
                proof { reveal_strlit("JmpIf"); }
                "JmpIf"
            },
            Opcode::Halt => {
                proof { reveal_strlit("Halt"); }
                "Halt"
            },
            Opcode::LoadSym => {
                proof { reveal_strlit("LoadSym"); }
                "LoadSym"
            },
            Opcode::LoadNum => {
                proof { reveal_strlit("LoadNum"); }
                "LoadNum"
            },
            Opcode::Move => {
                proof { reveal_strlit("Move"); }
                "Move"
            },
            Opcode::Compare => {
                proof { reveal_strlit("Compare"); }
                "Compare"
            },
            Opcode::GraphNodeCreate => {
                proof { reveal_strlit("GraphNodeCreate"); }
                "GraphNodeCreate"
            },
            Opcode::GraphEdgeCreate => {
                proof { reveal_strlit("GraphEdgeCreate"); }
                "GraphEdgeCreate"
            },
            Opcode::GraphMatch => {
                proof { reveal_strlit("GraphMatch"); }
                "GraphMatch"
            },
            Opcode::GraphTraverse => {
                proof { reveal_strlit("GraphTraverse"); }
                "GraphTraverse"
            },
            Opcode::RuleLoad => {
                proof { reveal_strlit("RuleLoad"); }
                "RuleLoad"
            },
            Opcode::RuleEval => {
                proof { reveal_strlit("RuleEval"); }
                "RuleEval"
            },
            Opcode::RuleFire => {
                proof { reveal_strlit("RuleFire"); }
                "RuleFire"
            },
            Opcode::RulePrioritySet => {
                proof { reveal_strlit("RulePrioritySet"); }
                "RulePrioritySet"
            },
            Opcode::CtxCreate => {
                proof { reveal_strlit("CtxCreate"); }
                "CtxCreate"
            },
            Opcode::CtxSwitch => {
                proof { reveal_strlit("CtxSwitch"); }
                "CtxSwitch"
            },
            Opcode::CtxClone => {
                proof { reveal_strlit("CtxClone"); }
                "CtxClone"
            },
            Opcode::CtxDestroy => {
                proof { reveal_strlit("CtxDestroy"); }
                "CtxDestroy"
            },
            Opcode::ErrSet => {
                proof { reveal_strlit("ErrSet"); }
                "ErrSet"
            },
            Opcode::ErrClear => {
                proof { reveal_strlit("ErrClear"); }
                "ErrClear"
            },
            Opcode::ErrCheck => {
                proof { reveal_strlit("ErrCheck"); }
                "ErrCheck"
            },
            Opcode::ExtCall => {
                proof { reveal_strlit("ExtCall"); }
                "ExtCall"
            },
            Opcode::ExtBind => {
                proof { reveal_strlit("ExtBind"); }
                "ExtBind"
            },
            Opcode::Return => {
                proof { reveal_strlit("Return"); }
                "Return"
            },
            Opcode::Output => {
                proof { reveal_strlit("Output"); }
                "Output"
            },
        }
    }

    /// The operation with the given byte, if there is one.
    pub fn from_code(code: u8) -> (r: Option<Opcode>)
        ensures
            match r {
                Some(op) => op.spec_code() == code,
                None => forall|op: Opcode| op.spec_code() != code,
            },
    {
        if code == 0x00 {
            Some(Opcode::Nop)
        } else if code == 0x01 {
            Some(Opcode::Jmp)
        } else if code == 0x02 {
            Some(Opcode::JmpIf)
        } else if code == 0x03 {
            Some(Opcode::Halt)
        } else if code == 0x10 {
            Some(Opcode::LoadSym)
        } else if code == 0x11 {
            Some(Opcode::LoadNum)
        } else if code == 0x12 {
            Some(Opcode::Move)
        } else if code == 0x13 {
            Some(Opcode::Compare)
        } else if code == 0x20 {
            Some(Opcode::GraphNodeCreate)
        } else if code == 0x21 {
            Some(Opcode::GraphEdgeCreate)
        } else if code == 0x22 {
            Some(Opcode::GraphMatch)
        } else if code == 0x23 {
            Some(Opcode::GraphTraverse)
        } else if code == 0x30 {
            Some(Opcode::RuleLoad)
        } else if code == 0x31 {
            Some(Opcode::RuleEval)
        } else if code == 0x32 {
            Some(Opcode::RuleFire)
        } else if code == 0x33 {
            Some(Opcode::RulePrioritySet)
        } else if code == 0x40 {
            Some(Opcode::CtxCreate)
        } else if code == 0x41 {
            Some(Opcode::CtxSwitch)
        } else if code == 0x42 {
            Some(Opcode::CtxClone)
        } else if code == 0x43 {
            Some(Opcode::CtxDestroy)
        } else if code == 0x50 {
            Some(Opcode::ErrSet)
        } else if code == 0x51 {
            Some(Opcode::ErrClear)
        } else if code == 0x52 {
            Some(Opcode::ErrCheck)
        } else if code == 0x60 {
            Some(Opcode::ExtCall)
        } else if code == 0x61 {
            Some(Opcode::ExtBind)
        } else if code == 0x70 {
            Some(Opcode::Return)
        } else if code == 0x71 {
            Some(Opcode::Output)
        } else {
            None
        }
    }
}

} // verus!
