//! Security validation of instructions and accesses.
use vstd::prelude::*;
use crate::vm::bytecode::Instruction;
use crate::vm_safety::sandbox::{SandboxEnvironment, SandboxError};
use crate::text::{hex2, u8_to_hex2, join2};

verus! {

#[derive(Debug, Clone, PartialEq, Eq)]
pub enum SecurityError {
    IllegalOpcode(u8),
    InvalidMemoryAccess,
    ContextEscape,
    RuleHijack,
    ExternalMisuse,
    SecurityViolation,
    SandboxViolation(SandboxError),
}

impl SecurityError {
    pub open spec fn spec_message(&self) -> Seq<char> {
        match self {
            SecurityError::IllegalOpcode(op) => "Illegal opcode: 0x"@ + hex2(*op),
            SecurityError::InvalidMemoryAccess => "Invalid memory access"@,
            SecurityError::ContextEscape => "Context escape attempt"@,
            SecurityError::RuleHijack => "Rule hijack attempt"@,
            SecurityError::ExternalMisuse => "External function misuse"@,
            SecurityError::SecurityViolation => "General security violation"@,
            SecurityError::SandboxViolation(e) => "Sandbox violation: "@ + e.spec_message(),
        }
    }

    pub fn message(&self) -> (s: String)
        ensures
            s@ == self.spec_message(),
    {
        match self {
            SecurityError::IllegalOpcode(op) => {
                let h = u8_to_hex2(*op);
                join2("Illegal opcode: 0x", h.as_str())
            },
            SecurityError::InvalidMemoryAccess => "Invalid memory access".to_owned(),
            SecurityError::ContextEscape => "Context escape attempt".to_owned(),
            SecurityError::RuleHijack => "Rule hijack attempt".to_owned(),
            SecurityError::ExternalMisuse => "External function misuse".to_owned(),
            SecurityError::SecurityViolation => "General security violation".to_owned(),
            SecurityError::SandboxViolation(e) => {
                let m = e.message();
                join2("Sandbox violation: ", m.as_str())
            },
        }
    }
}

/// The opcodes a new validator allows.
pub open spec fn default_opcodes() -> Seq<u8> {
    seq![
        0x00u8, 0x01, 0x02, 0x03,
        0x10, 0x11, 0x12, 0x13, 0x14,
        0x20, 0x21, 0x22, 0x23, 0x24,
        0x30, 0x31, 0x32,
        0x40, 0x41, 0x42, 0x43,
        0x50, 0x51, 0x52, 0x53,
        0x60, 0x61, 0x62, 0x63, 0x64,
        0x70, 0x71, 0x72, 0x73,
        0x80, 0x81, 0x82,
    ]
}

/// The largest context and rule ids that may be accessed.
pub const MAX_ACCESS_ID: u64 = 1000000;

#[derive(Debug, Clone)]
pub struct SecurityValidator {
    pub allow_self_modifying_code: bool,
    pub allow_dynamic_dispatch: bool,
    pub allow_runtime_code_loading: bool,
    pub allowed_opcodes: Vec<u8>,
}

impl SecurityValidator {
    /// A validator that allows no self-modification, dynamic dispatch or runtime
    /// loading, and the opcodes of `default_opcodes`.
    pub fn new() -> (v: Self)
        ensures
            !v.allow_self_modifying_code,
            !v.allow_dynamic_dispatch,
            !v.allow_runtime_code_loading,
            v.allowed_opcodes@ == default_opcodes(),
    {
        let allowed_opcodes: Vec<u8> = vec![
            0x00, 0x01, 0x02, 0x03,
            0x10, 0x11, 0x12, 0x13, 0x14,
            0x20, 0x21, 0x22, 0x23, 0x24,
            0x30, 0x31, 0x32,
            0x40, 0x41, 0x42, 0x43,
            0x50, 0x51, 0x52, 0x53,
            0x60, 0x61, 0x62, 0x63, 0x64,
            0x70, 0x71, 0x72, 0x73,
            0x80, 0x81, 0x82,
        ];
        assert(allowed_opcodes@ =~= default_opcodes());
        SecurityValidator {
            allow_self_modifying_code: false,
            allow_dynamic_dispatch: false,
            allow_runtime_code_loading: false,
            allowed_opcodes,
        }
    }

    /// Refuses an instruction whose opcode is not allowed.
    pub fn validate_instruction(&self, instruction: &Instruction) -> (r: Result<(), SecurityError>)
        ensures
            self.allowed_opcodes@.contains(instruction.opcode) ==> r is Ok,
            !self.allowed_opcodes@.contains(instruction.opcode) ==> r == Err::<(), SecurityError>(SecurityError::IllegalOpcode(instruction.opcode)),
    {
        let mut i: usize = 0;
        while i < self.allowed_opcodes.len()
            invariant
                i <= self.allowed_opcodes.len(),
                forall|j: int| 0 <= j < i ==> self.allowed_opcodes@[j] != instruction.opcode,
            decreases self.allowed_opcodes.len() - i,
        {
            if self.allowed_opcodes[i] == instruction.opcode {
                return Ok(());
            }
            i += 1;
        }
        Err(SecurityError::IllegalOpcode(instruction.opcode))
    }

    /// Validates instructions in order and stops at the first illegal opcode.
    pub fn validate_bytecode(&self, instructions: &[Instruction]) -> (r: Result<(), SecurityError>)
        ensures
            (forall|i: int| 0 <= i < instructions@.len() ==> self.allowed_opcodes@.contains(#[trigger] instructions@[i].opcode)) ==> r is Ok,
            !(forall|i: int| 0 <= i < instructions@.len() ==> self.allowed_opcodes@.contains(#[trigger] instructions@[i].opcode)) ==> exists|i: int|
                0 <= i < instructions@.len() && !self.allowed_opcodes@.contains(instructions@[i].opcode)
                && (forall|j: int| 0 <= j < i ==> self.allowed_opcodes@.contains(#[trigger] instructions@[j].opcode))
                && r == Err::<(), SecurityError>(SecurityError::IllegalOpcode(instructions@[i].opcode)),
    {
        let mut i: usize = 0;
        while i < instructions.len()
            invariant
                i <= instructions@.len(),
                forall|j: int| 0 <= j < i ==> self.allowed_opcodes@.contains(#[trigger] instructions@[j].opcode),
            decreases instructions@.len() - i,
        {
            match self.validate_instruction(&instructions[i]) {
                Ok(()) => {},
                Err(e) => {
                    return Err(e);
                },
            }
            i += 1;
        }
        Ok(())
    }

    /// Refuses an access whose last byte would lie past the 32-bit address space.
    pub fn validate_memory_access(&self, address: u32, size: u32) -> (r: Result<(), SecurityError>)
        ensures
            (address + size <= u32::MAX) ==> r is Ok,
            (address + size > u32::MAX) ==> r == Err::<(), SecurityError>(SecurityError::InvalidMemoryAccess),
    {
        if address > u32::MAX - size {
            return Err(SecurityError::InvalidMemoryAccess);
        }
        Ok(())
    }

    /// Refuses a context id above a million.
    pub fn validate_context_access(&self, context_id: u64) -> (r: Result<(), SecurityError>)
        ensures
            context_id <= MAX_ACCESS_ID ==> r is Ok,
            context_id > MAX_ACCESS_ID ==> r == Err::<(), SecurityError>(SecurityError::ContextEscape),
    {
        if context_id > MAX_ACCESS_ID {
            return Err(SecurityError::ContextEscape);
        }
        Ok(())
    }

    /// Refuses a rule id above a million.
    pub fn validate_rule_access(&self, rule_id: u32) -> (r: Result<(), SecurityError>)
        ensures
            rule_id <= MAX_ACCESS_ID ==> r is Ok,
            rule_id > MAX_ACCESS_ID ==> r == Err::<(), SecurityError>(SecurityError::RuleHijack),
    {
        if rule_id as u64 > MAX_ACCESS_ID {
            return Err(SecurityError::RuleHijack);
        }
        Ok(())
    }

    pub fn allows_self_modifying_code(&self) -> (b: bool)
        ensures
            b == self.allow_self_modifying_code,
    {
        self.allow_self_modifying_code
    }

    pub fn allows_dynamic_dispatch(&self) -> (b: bool)
        ensures
            b == self.allow_dynamic_dispatch,
    {
        self.allow_dynamic_dispatch
    }

    pub fn allows_runtime_code_loading(&self) -> (b: bool)
        ensures
            b == self.allow_runtime_code_loading,
    {
        self.allow_runtime_code_loading
    }

    /// Keeps self-modifying code forbidden; it can never be allowed.
    pub fn set_allow_self_modifying_code(&mut self, allow: bool)
        requires
            !allow,
        ensures
            *final(self) == (SecurityValidator { allow_self_modifying_code: false, ..*old(self) }),
    {
        self.allow_self_modifying_code = false;
    }

    /// Keeps dynamic dispatch forbidden; it can never be allowed.
    pub fn set_allow_dynamic_dispatch(&mut self, allow: bool)
        requires
            !allow,
        ensures
            *final(self) == (SecurityValidator { allow_dynamic_dispatch: false, ..*old(self) }),
    {
        self.allow_dynamic_dispatch = false;
    }

    /// Keeps runtime code loading forbidden; it can never be allowed.
    pub fn set_allow_runtime_code_loading(&mut self, allow: bool)
        requires
            !allow,
        ensures
            *final(self) == (SecurityValidator { allow_runtime_code_loading: false, ..*old(self) }),
    {
        self.allow_runtime_code_loading = false;
    }
}

#[derive(Debug, Clone, PartialEq, Eq)]
pub enum ValidationResult {
    Valid,
    Invalid(SecurityError),
}

/// A validator together with the sandbox it works with.
#[derive(Debug)]
pub struct SecurityValidationContext {
    pub validator: SecurityValidator,
    pub sandbox: SandboxEnvironment,
}

impl SecurityValidationContext {
    pub fn new(validator: SecurityValidator, sandbox: SandboxEnvironment) -> (c: Self)
        ensures
            c.validator == validator,
            c.sandbox == sandbox,
    {
        SecurityValidationContext { validator, sandbox }
    }

    /// Validates an instruction by its opcode; the sandbox is not consulted.
    pub fn validate_instruction(&mut self, instruction: &Instruction) -> (r: Result<(), SecurityError>)
        ensures
            *final(self) == *old(self),
            old(self).validator.allowed_opcodes@.contains(instruction.opcode) ==> r is Ok,
            !old(self).validator.allowed_opcodes@.contains(instruction.opcode) ==> r == Err::<(), SecurityError>(SecurityError::IllegalOpcode(instruction.opcode)),
    {
        self.validator.validate_instruction(instruction)
    }

    /// Validates instructions in order and stops at the first illegal opcode.
    pub fn validate_instructions(&mut self, instructions: &[Instruction]) -> (r: Result<(), SecurityError>)
        ensures
            *final(self) == *old(self),
            (forall|i: int| 0 <= i < instructions@.len() ==> old(self).validator.allowed_opcodes@.contains(#[trigger] instructions@[i].opcode)) ==> r is Ok,
            !(forall|i: int| 0 <= i < instructions@.len() ==> old(self).validator.allowed_opcodes@.contains(#[trigger] instructions@[i].opcode)) ==> exists|i: int|
                0 <= i < instructions@.len() && !old(self).validator.allowed_opcodes@.contains(instructions@[i].opcode)
                && (forall|j: int| 0 <= j < i ==> old(self).validator.allowed_opcodes@.contains(#[trigger] instructions@[j].opcode))
                && r == Err::<(), SecurityError>(SecurityError::IllegalOpcode(instructions@[i].opcode)),
    {
        let mut i: usize = 0;
        while i < instructions.len()
            invariant
                *self == *old(self),
                i <= instructions@.len(),
                forall|j: int| 0 <= j < i ==> self.validator.allowed_opcodes@.contains(#[trigger] instructions@[j].opcode),
            decreases instructions@.len() - i,
        {
            match self.validate_instruction(&instructions[i]) {
                Ok(()) => {},
                Err(e) => {
                    return Err(e);
                },
            }
            i += 1;
        }
        Ok(())
    }

    pub fn validate_memory_access(&self, address: u32, size: u32) -> (r: Result<(), SecurityError>)
        ensures
            (address + size <= u32::MAX) ==> r is Ok,
            (address + size > u32::MAX) ==> r == Err::<(), SecurityError>(SecurityError::InvalidMemoryAccess),
    {
        self.validator.validate_memory_access(address, size)
    }

    pub fn validate_context_access(&self, context_id: u64) -> (r: Result<(), SecurityError>)
        ensures
            context_id <= MAX_ACCESS_ID ==> r is Ok,
            context_id > MAX_ACCESS_ID ==> r == Err::<(), SecurityError>(SecurityError::ContextEscape),
    {
        self.validator.validate_context_access(context_id)
    }

    pub fn validate_rule_access(&self, rule_id: u32) -> (r: Result<(), SecurityError>)
        ensures
            rule_id <= MAX_ACCESS_ID ==> r is Ok,
            rule_id > MAX_ACCESS_ID ==> r == Err::<(), SecurityError>(SecurityError::RuleHijack),
    {
        self.validator.validate_rule_access(rule_id)
    }
}

} // verus!
