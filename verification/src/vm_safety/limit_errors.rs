//! Unified error codes for limit violations.
use vstd::prelude::*;

verus! {

/// Kinds of memory whose limit can be exceeded.
#[derive(Debug, Clone, Copy, PartialEq, Eq)]
pub enum MemoryLimitType {
    Code,
    Const,
    Stack,
    Heap,
    Meta,
}

impl MemoryLimitType {
    pub open spec fn spec_name(self) -> Seq<char> {
        match self {
            MemoryLimitType::Code => "Code"@,
            MemoryLimitType::Const => "Constant"@,
            MemoryLimitType::Stack => "Stack"@,
            MemoryLimitType::Heap => "Heap"@,
            MemoryLimitType::Meta => "Meta"@,
        }
    }

    /// The display name of the memory kind.
    pub fn name(&self) -> (s: String)
        ensures
            s@ == self.spec_name(),
    {
        match self {
            MemoryLimitType::Code => "Code".to_owned(),
            MemoryLimitType::Const => "Constant".to_owned(),
            MemoryLimitType::Stack => "Stack".to_owned(),
            MemoryLimitType::Heap => "Heap".to_owned(),
            MemoryLimitType::Meta => "Meta".to_owned(),
        }
    }

    pub open spec fn spec_debug_name(self) -> Seq<char> {
        match self {
            MemoryLimitType::Code => "Code"@,
            MemoryLimitType::Const => "Const"@,
            MemoryLimitType::Stack => "Stack"@,
            MemoryLimitType::Heap => "Heap"@,
            MemoryLimitType::Meta => "Meta"@,
        }
    }

    /// The variant name of the memory kind.
    pub fn debug_name(&self) -> (s: String)
        ensures
            s@ == self.spec_debug_name(),
    {
        match self {
            MemoryLimitType::Code => "Code".to_owned(),
            MemoryLimitType::Const => "Const".to_owned(),
            MemoryLimitType::Stack => "Stack".to_owned(),
            MemoryLimitType::Heap => "Heap".to_owned(),
            MemoryLimitType::Meta => "Meta".to_owned(),
        }
    }
}

/// Limit violations of the virtual machine.
#[derive(Debug, Clone, Copy, PartialEq, Eq)]
pub enum LimitError {
    MemoryLimitExceeded(MemoryLimitType),
    StepLimitExceeded,
    RuleLimitExceeded,
    LoopLimitExceeded,
    SandboxViolation,
    SecurityViolation,
}

impl LimitError {
    pub open spec fn spec_message(self) -> Seq<char> {
        match self {
            LimitError::MemoryLimitExceeded(t) => "Memory limit exceeded: "@ + t.spec_debug_name(),
            LimitError::StepLimitExceeded => "Instruction step limit exceeded"@,
            LimitError::RuleLimitExceeded => "Rule invocation/recursion limit exceeded"@,
            LimitError::LoopLimitExceeded => "Loop iteration limit exceeded"@,
            LimitError::SandboxViolation => "Sandbox policy violation"@,
            LimitError::SecurityViolation => "Security violation"@,
        }
    }

    /// The message describing the violation.
    pub fn message(&self) -> (s: String)
        ensures
            s@ == self.spec_message(),
    {
        match self {
            LimitError::MemoryLimitExceeded(t) => {
                let n = t.debug_name();
                crate::text::join2("Memory limit exceeded: ", n.as_str())
            },
            LimitError::StepLimitExceeded => "Instruction step limit exceeded".to_owned(),
            LimitError::RuleLimitExceeded => "Rule invocation/recursion limit exceeded".to_owned(),
            LimitError::LoopLimitExceeded => "Loop iteration limit exceeded".to_owned(),
            LimitError::SandboxViolation => "Sandbox policy violation".to_owned(),
            LimitError::SecurityViolation => "Security violation".to_owned(),
        }
    }
}

/// The outcome of an operation that a limit may stop.
pub type LimitResult<T> = Result<T, LimitError>;

/// Types that can be checked against their limits.
pub trait LimitCheck {
    fn check_limits(&self) -> LimitResult<()>;
}

pub fn memory_limit_error(mem_type: MemoryLimitType) -> (e: LimitError)
    ensures
        e == LimitError::MemoryLimitExceeded(mem_type),
{
    LimitError::MemoryLimitExceeded(mem_type)
}

pub fn step_limit_error() -> (e: LimitError)
    ensures
        e == LimitError::StepLimitExceeded,
{
    LimitError::StepLimitExceeded
}

pub fn rule_limit_error() -> (e: LimitError)
    ensures
        e == LimitError::RuleLimitExceeded,
{
    LimitError::RuleLimitExceeded
}

pub fn loop_limit_error() -> (e: LimitError)
    ensures
        e == LimitError::LoopLimitExceeded,
{
    LimitError::LoopLimitExceeded
}

pub fn sandbox_violation_error() -> (e: LimitError)
    ensures
        e == LimitError::SandboxViolation,
{
    LimitError::SandboxViolation
}

pub fn security_violation_error() -> (e: LimitError)
    ensures
        e == LimitError::SecurityViolation,
{
    LimitError::SecurityViolation
}

} // verus!
