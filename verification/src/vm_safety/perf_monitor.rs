//! Performance metrics of the virtual machine and their monitoring.
use vstd::prelude::*;
use crate::maps::{IdMap, NameMap};
use crate::vm::bytecode::Opcode;
use crate::text::{decimal, u64_to_decimal};

verus! {

/// The name of the operation with code `c`; empty for an unknown code.
pub open spec fn code_name(c: u32) -> Seq<char> {
    if c == 0x00 {
        "Nop"@
    } else if c == 0x01 {
        "Jmp"@
    } else if c == 0x02 {
        "JmpIf"@
    } else if c == 0x03 {
        "Halt"@
    } else if c == 0x10 {
        "LoadSym"@
    } else if c == 0x11 {
        "LoadNum"@
    } else if c == 0x12 {
        "Move"@
    } else if c == 0x13 {
        "Compare"@
    } else if c == 0x20 {
        "GraphNodeCreate"@
    } else if c == 0x21 {
        "GraphEdgeCreate"@
    } else if c == 0x22 {
        "GraphMatch"@
    } else if c == 0x23 {
        "GraphTraverse"@
    } else if c == 0x30 {
        "RuleLoad"@
    } else if c == 0x31 {
        "RuleEval"@
    } else if c == 0x32 {
        "RuleFire"@
    } else if c == 0x33 {
        "RulePrioritySet"@
    } else if c == 0x40 {
        "CtxCreate"@
    } else if c == 0x41 {
        "CtxSwitch"@
    } else if c == 0x42 {
        "CtxClone"@
    } else if c == 0x43 {
        "CtxDestroy"@
    } else if c == 0x50 {
        "ErrSet"@
    } else if c == 0x51 {
        "ErrClear"@
    } else if c == 0x52 {
        "ErrCheck"@
    } else if c == 0x60 {
        "ExtCall"@
    } else if c == 0x61 {
        "ExtBind"@
    } else if c == 0x70 {
        "Return"@
    } else if c == 0x71 {
        "Output"@
    } else {
        Seq::empty()
    }
}

fn code_name_str(c: u32) -> (s: &'static str)
    ensures
        s@ == code_name(c),
{
    if c == 0x00 {
        proof { reveal_strlit("Nop"); }
        "Nop"
    } else if c == 0x01 {
        proof { reveal_strlit("Jmp"); }
        "Jmp"
    } else if c == 0x02 {
        proof { reveal_strlit("JmpIf"); }
        "JmpIf"
    } else if c == 0x03 {
        proof { reveal_strlit("Halt"); }
        "Halt"
    } else if c == 0x10 {
        proof { reveal_strlit("LoadSym"); }
        "LoadSym"
    } else if c == 0x11 {
        proof { reveal_strlit("LoadNum"); }
        "LoadNum"
    } else if c == 0x12 {
        proof { reveal_strlit("Move"); }
        "Move"
    } else if c == 0x13 {
        proof { reveal_strlit("Compare"); }
        "Compare"
    } else if c == 0x20 {
        proof { reveal_strlit("GraphNodeCreate"); }
        "GraphNodeCreate"
    } else if c == 0x21 {
        proof { reveal_strlit("GraphEdgeCreate"); }
        "GraphEdgeCreate"
    } else if c == 0x22 {
        proof { reveal_strlit("GraphMatch"); }
        "GraphMatch"
    } else if c == 0x23 {
        proof { reveal_strlit("GraphTraverse"); }
        "GraphTraverse"
    } else if c == 0x30 {
        proof { reveal_strlit("RuleLoad"); }
        "RuleLoad"
    } else if c == 0x31 {
        proof { reveal_strlit("RuleEval"); }
        "RuleEval"
    } else if c == 0x32 {
        proof { reveal_strlit("RuleFire"); }
        "RuleFire"
    } else if c == 0x33 {
        proof { reveal_strlit("RulePrioritySet"); }
        "RulePrioritySet"
    } else if c == 0x40 {
        proof { reveal_strlit("CtxCreate"); }
        "CtxCreate"
    } else if c == 0x41 {
        proof { reveal_strlit("CtxSwitch"); }
        "CtxSwitch"
    } else if c == 0x42 {
        proof { reveal_strlit("CtxClone"); }
        "CtxClone"
    } else if c == 0x43 {
        proof { reveal_strlit("CtxDestroy"); }
        "CtxDestroy"
    } else if c == 0x50 {
        proof { reveal_strlit("ErrSet"); }
        "ErrSet"
    } else if c == 0x51 {
        proof { reveal_strlit("ErrClear"); }
        "ErrClear"
    } else if c == 0x52 {
        proof { reveal_strlit("ErrCheck"); }
        "ErrCheck"
    } else if c == 0x60 {
        proof { reveal_strlit("ExtCall"); }
        "ExtCall"
    } else if c == 0x61 {
        proof { reveal_strlit("ExtBind"); }
        "ExtBind"
    } else if c == 0x70 {
        proof { reveal_strlit("Return"); }
        "Return"
    } else if c == 0x71 {
        proof { reveal_strlit("Output"); }
        "Output"
    } else {
        proof { reveal_strlit(""); }
        ""
    }
}

pub proof fn lemma_code_name(op: Opcode)
    ensures
        code_name(op.spec_code() as u32) == op.spec_name(),
{
}

/// One report line per opcode count, in the order the opcodes were first seen.
pub open spec fn opcode_lines(codes: Seq<u32>, counts: Map<u32, u64>) -> Seq<char>
    decreases codes.len(),
{
    if codes.len() == 0 {
        Seq::empty()
    } else {
        opcode_lines(codes.drop_last(), counts) + "    "@ + code_name(codes.last()) + ": "@ + decimal(counts[codes.last()] as nat) + "\n"@
    }
}

/// One report line per rule count, in the order the rules were first seen.
pub open spec fn rule_lines(names: Seq<Seq<char>>, counts: Map<Seq<char>, u64>) -> Seq<char>
    decreases names.len(),
{
    if names.len() == 0 {
        Seq::empty()
    } else {
        rule_lines(names.drop_last(), counts) + "    "@ + names.last() + ": "@ + decimal(counts[names.last()] as nat) + "\n"@
    }
}

/// Metrics collected while the machine runs.
#[derive(Debug, Clone)]
pub struct PerformanceMetrics {
    pub instruction_count: u64,
    /// executions per opcode byte
    pub per_opcode_count: IdMap<u64>,
    pub max_stack_depth: u64,
    pub heap_peak_usage: u64,
    pub rule_invocation_counts: NameMap<u64>,
    pub graph_node_count: u64,
    pub current_stack_depth: u64,
    pub current_heap_usage: u64,
}

impl PerformanceMetrics {
    pub open spec fn wf(&self) -> bool {
        self.per_opcode_count.wf() && self.rule_invocation_counts.wf()
    }

    pub open spec fn is_zero(&self) -> bool {
        &&& self.wf()
        &&& self.instruction_count == 0
        &&& self.per_opcode_count@ == Map::<u32, u64>::empty()
        &&& self.per_opcode_count.key_seq() == Seq::<u32>::empty()
        &&& self.max_stack_depth == 0
        &&& self.heap_peak_usage == 0
        &&& self.rule_invocation_counts@ == Map::<Seq<char>, u64>::empty()
        &&& self.rule_invocation_counts.key_seq() == Seq::<Seq<char>>::empty()
        &&& self.graph_node_count == 0
        &&& self.current_stack_depth == 0
        &&& self.current_heap_usage == 0
    }

    pub open spec fn opcode_count_of(&self, code: u32) -> u64 {
        if self.per_opcode_count@.contains_key(code) { self.per_opcode_count@[code] } else { 0 }
    }

    pub open spec fn rule_count_of(&self, name: Seq<char>) -> u64 {
        if self.rule_invocation_counts@.contains_key(name) { self.rule_invocation_counts@[name] } else { 0 }
    }

    pub fn new() -> (m: Self)
        ensures
            m.is_zero(),
    {
        PerformanceMetrics {
            instruction_count: 0,
            per_opcode_count: IdMap::new(),
            max_stack_depth: 0,
            heap_peak_usage: 0,
            rule_invocation_counts: NameMap::new(),
            graph_node_count: 0,
            current_stack_depth: 0,
            current_heap_usage: 0,
        }
    }

    /// Counts one execution of an instruction with the given opcode.
    pub fn record_instruction(&mut self, opcode: Opcode)
        requires
            old(self).wf(),
            old(self).instruction_count < u64::MAX,
            old(self).opcode_count_of(opcode.spec_code() as u32) < u64::MAX,
        ensures
            final(self).wf(),
            final(self).instruction_count == old(self).instruction_count + 1,
            final(self).per_opcode_count@ == old(self).per_opcode_count@.insert(
                opcode.spec_code() as u32,
                (old(self).opcode_count_of(opcode.spec_code() as u32) + 1) as u64,
            ),
            final(self).rule_invocation_counts == old(self).rule_invocation_counts,
            final(self).max_stack_depth == old(self).max_stack_depth,
            final(self).heap_peak_usage == old(self).heap_peak_usage,
            final(self).graph_node_count == old(self).graph_node_count,
            final(self).current_stack_depth == old(self).current_stack_depth,
            final(self).current_heap_usage == old(self).current_heap_usage,
    {
        self.instruction_count = self.instruction_count + 1;
        let code = opcode.code() as u32;
        let c = self.get_count_by_code(code);
        self.per_opcode_count.insert(code, c + 1);
    }

    fn get_count_by_code(&self, code: u32) -> (n: u64)
        requires
            self.wf(),
        ensures
            n == self.opcode_count_of(code),
    {
        match self.per_opcode_count.get(code) {
            Some(c) => *c,
            None => 0,
        }
    }

    /// Records the current stack depth and raises the maximum when it is passed.
    pub fn update_stack_depth(&mut self, depth: u64)
        ensures
            *final(self) == (PerformanceMetrics {
                current_stack_depth: depth,
                max_stack_depth: if depth > old(self).max_stack_depth { depth } else { old(self).max_stack_depth },
                ..*old(self)
            }),
    {
        self.current_stack_depth = depth;
        if depth > self.max_stack_depth {
            self.max_stack_depth = depth;
        }
    }

    /// Records the current heap usage and raises the peak when it is passed.
    pub fn update_heap_usage(&mut self, usage: u64)
        ensures
            *final(self) == (PerformanceMetrics {
                current_heap_usage: usage,
                heap_peak_usage: if usage > old(self).heap_peak_usage { usage } else { old(self).heap_peak_usage },
                ..*old(self)
            }),
    {
        self.current_heap_usage = usage;
        if usage > self.heap_peak_usage {
            self.heap_peak_usage = usage;
        }
    }

    /// Counts one invocation of the named rule.
    pub fn record_rule_invocation(&mut self, rule_name: &str)
        requires
            old(self).wf(),
            old(self).rule_count_of(rule_name@) < u64::MAX,
        ensures
            final(self).wf(),
            final(self).rule_invocation_counts@ == old(self).rule_invocation_counts@.insert(rule_name@, (old(self).rule_count_of(rule_name@) + 1) as u64),
            final(self).per_opcode_count == old(self).per_opcode_count,
            final(self).instruction_count == old(self).instruction_count,
            final(self).max_stack_depth == old(self).max_stack_depth,
            final(self).heap_peak_usage == old(self).heap_peak_usage,
            final(self).graph_node_count == old(self).graph_node_count,
    {
        let c = self.get_rule_invocation_count(rule_name);
        self.rule_invocation_counts.insert(rule_name.to_owned(), c + 1);
    }

    pub fn update_graph_node_count(&mut self, count: u64)
        ensures
            *final(self) == (PerformanceMetrics { graph_node_count: count, ..*old(self) }),
    {
        self.graph_node_count = count;
    }

    /// Sets every metric back to zero.
    pub fn reset(&mut self)
        requires
            old(self).wf(),
        ensures
            final(self).is_zero(),
    {
        self.instruction_count = 0;
        self.per_opcode_count.clear();
        self.max_stack_depth = 0;
        self.heap_peak_usage = 0;
        self.rule_invocation_counts.clear();
        self.graph_node_count = 0;
        self.current_stack_depth = 0;
        self.current_heap_usage = 0;
    }

    pub fn get_opcode_count(&self, opcode: Opcode) -> (n: u64)
        requires
            self.wf(),
        ensures
            n == self.opcode_count_of(opcode.spec_code() as u32),
    {
        self.get_count_by_code(opcode.code() as u32)
    }

    pub fn get_rule_invocation_count(&self, rule_name: &str) -> (n: u64)
        requires
            self.wf(),
        ensures
            n == self.rule_count_of(rule_name@),
    {
        match self.rule_invocation_counts.get(rule_name) {
            Some(c) => *c,
            None => 0,
        }
    }

    /// An independent copy of the metrics.
    pub fn snapshot(&self) -> (m: Self)
        requires
            self.wf(),
        ensures
            m.wf(),
            m.instruction_count == self.instruction_count,
            m.per_opcode_count@ == self.per_opcode_count@,
            m.per_opcode_count.key_seq() == self.per_opcode_count.key_seq(),
            m.rule_invocation_counts@ == self.rule_invocation_counts@,
            m.rule_invocation_counts.key_seq() == self.rule_invocation_counts.key_seq(),
            m.max_stack_depth == self.max_stack_depth,
            m.heap_peak_usage == self.heap_peak_usage,
            m.graph_node_count == self.graph_node_count,
            m.current_stack_depth == self.current_stack_depth,
            m.current_heap_usage == self.current_heap_usage,
    {
        let mut ops: IdMap<u64> = IdMap::new();
        let mut i: usize = 0;
        while i < self.per_opcode_count.len()
            invariant
                self.wf(),
                ops.wf(),
                i <= self.per_opcode_count.spec_len(),
                ops.key_seq() == self.per_opcode_count.key_seq().subrange(0, i as int),
                forall|k: u32| #[trigger] ops@.contains_key(k) ==> self.per_opcode_count@.contains_key(k) && ops@[k] == self.per_opcode_count@[k],
                forall|k: u32| ops@.contains_key(k) <==> ops.key_seq().contains(k),
            decreases self.per_opcode_count.spec_len() - i,
        {
            let k = self.per_opcode_count.key_at(i);
            let v = *self.per_opcode_count.val_at(i);
            proof {
                let ks = self.per_opcode_count.key_seq();
                assert(!ks.subrange(0, i as int).contains(k)) by {
                    if ks.subrange(0, i as int).contains(k) {
                        let j = choose|j: int| 0 <= j < i && ks.subrange(0, i as int)[j] == k;
                        assert(ks[j] == ks[i as int]);
                    }
                }
            }
            ops.insert(k, v);
            i += 1;
            assert(ops.key_seq() =~= self.per_opcode_count.key_seq().subrange(0, i as int));
        }
        assert(self.per_opcode_count.key_seq().subrange(0, i as int) =~= self.per_opcode_count.key_seq());
        assert(ops@ =~= self.per_opcode_count@);
        let rules = self.rule_invocation_counts.duplicate();
        assert(rules@ =~= self.rule_invocation_counts@);
        PerformanceMetrics {
            instruction_count: self.instruction_count,
            per_opcode_count: ops,
            max_stack_depth: self.max_stack_depth,
            heap_peak_usage: self.heap_peak_usage,
            rule_invocation_counts: rules,
            graph_node_count: self.graph_node_count,
            current_stack_depth: self.current_stack_depth,
            current_heap_usage: self.current_heap_usage,
        }
    }
}

/// Which metrics are collected.
#[derive(Debug, Clone, Copy, PartialEq, Eq)]
pub struct PerformanceConfig {
    pub enable_instruction_counting: bool,
    pub enable_opcode_breakdown: bool,
    pub enable_stack_monitoring: bool,
    pub enable_heap_monitoring: bool,
    pub enable_rule_monitoring: bool,
    pub enable_graph_monitoring: bool,
}

impl PerformanceConfig {
    pub open spec fn all(v: bool) -> PerformanceConfig {
        PerformanceConfig {
            enable_instruction_counting: v,
            enable_opcode_breakdown: v,
            enable_stack_monitoring: v,
            enable_heap_monitoring: v,
            enable_rule_monitoring: v,
            enable_graph_monitoring: v,
        }
    }

    /// Everything enabled.
    pub fn new() -> (c: Self)
        ensures
            c == Self::all(true),
    {
        PerformanceConfig {
            enable_instruction_counting: true,
            enable_opcode_breakdown: true,
            enable_stack_monitoring: true,
            enable_heap_monitoring: true,
            enable_rule_monitoring: true,
            enable_graph_monitoring: true,
        }
    }

    pub fn enable_all(&mut self)
        ensures
            *final(self) == Self::all(true),
    {
        self.enable_instruction_counting = true;
        self.enable_opcode_breakdown = true;
        self.enable_stack_monitoring = true;
        self.enable_heap_monitoring = true;
        self.enable_rule_monitoring = true;
        self.enable_graph_monitoring = true;
    }

    pub fn disable_all(&mut self)
        ensures
            *final(self) == Self::all(false),
    {
        self.enable_instruction_counting = false;
        self.enable_opcode_breakdown = false;
        self.enable_stack_monitoring = false;
        self.enable_heap_monitoring = false;
        self.enable_rule_monitoring = false;
        self.enable_graph_monitoring = false;
    }
}

/// Metrics and the configuration that says which are collected.
#[derive(Debug)]
pub struct PerformanceMonitor {
    pub metrics: PerformanceMetrics,
    pub config: PerformanceConfig,
}

impl PerformanceMonitor {
    pub open spec fn wf(&self) -> bool {
        self.metrics.wf()
    }

    pub fn new() -> (m: Self)
        ensures
            m.metrics.is_zero(),
            m.config == PerformanceConfig::all(true),
    {
        PerformanceMonitor { metrics: PerformanceMetrics::new(), config: PerformanceConfig::new() }
    }

    /// Counts an instruction when instruction counting is enabled.
    pub fn record_instruction(&mut self, opcode: Opcode)
        requires
            old(self).wf(),
            old(self).metrics.instruction_count < u64::MAX,
            old(self).metrics.opcode_count_of(opcode.spec_code() as u32) < u64::MAX,
        ensures
            final(self).wf(),
            final(self).config == old(self).config,
            !old(self).config.enable_instruction_counting ==> final(self).metrics == old(self).metrics,
            old(self).config.enable_instruction_counting ==> final(self).metrics.instruction_count == old(self).metrics.instruction_count + 1
                && final(self).metrics.per_opcode_count@ == old(self).metrics.per_opcode_count@.insert(
                    opcode.spec_code() as u32,
                    (old(self).metrics.opcode_count_of(opcode.spec_code() as u32) + 1) as u64,
                ),
    {
        if self.config.enable_instruction_counting {
            self.metrics.record_instruction(opcode);
        }
    }

    pub fn update_stack_depth(&mut self, depth: u64)
        ensures
            final(self).config == old(self).config,
            !old(self).config.enable_stack_monitoring ==> final(self).metrics == old(self).metrics,
            old(self).config.enable_stack_monitoring ==> final(self).metrics == (PerformanceMetrics {
                current_stack_depth: depth,
                max_stack_depth: if depth > old(self).metrics.max_stack_depth { depth } else { old(self).metrics.max_stack_depth },
                ..old(self).metrics
            }),
    {
        if self.config.enable_stack_monitoring {
            self.metrics.update_stack_depth(depth);
        }
    }

    pub fn update_heap_usage(&mut self, usage: u64)
        ensures
            final(self).config == old(self).config,
            !old(self).config.enable_heap_monitoring ==> final(self).metrics == old(self).metrics,
            old(self).config.enable_heap_monitoring ==> final(self).metrics == (PerformanceMetrics {
                current_heap_usage: usage,
                heap_peak_usage: if usage > old(self).metrics.heap_peak_usage { usage } else { old(self).metrics.heap_peak_usage },
                ..old(self).metrics
            }),
    {
        if self.config.enable_heap_monitoring {
            self.metrics.update_heap_usage(usage);
        }
    }

    pub fn record_rule_invocation(&mut self, rule_name: &str)
        requires
            old(self).wf(),
            old(self).metrics.rule_count_of(rule_name@) < u64::MAX,
        ensures
            final(self).wf(),
            final(self).config == old(self).config,
            !old(self).config.enable_rule_monitoring ==> final(self).metrics == old(self).metrics,
            old(self).config.enable_rule_monitoring ==> final(self).metrics.rule_invocation_counts@
                == old(self).metrics.rule_invocation_counts@.insert(rule_name@, (old(self).metrics.rule_count_of(rule_name@) + 1) as u64),
    {
        if self.config.enable_rule_monitoring {
            self.metrics.record_rule_invocation(rule_name);
        }
    }

    pub fn update_graph_node_count(&mut self, count: u64)
        ensures
            final(self).config == old(self).config,
            !old(self).config.enable_graph_monitoring ==> final(self).metrics == old(self).metrics,
            old(self).config.enable_graph_monitoring ==> final(self).metrics == (PerformanceMetrics { graph_node_count: count, ..old(self).metrics }),
    {
        if self.config.enable_graph_monitoring {
            self.metrics.update_graph_node_count(count);
        }
    }

    /// A copy of the current metrics.
    pub fn get_snapshot(&self) -> (m: PerformanceMetrics)
        requires
            self.wf(),
        ensures
            m.wf(),
            m.instruction_count == self.metrics.instruction_count,
            m.per_opcode_count@ == self.metrics.per_opcode_count@,
            m.rule_invocation_counts@ == self.metrics.rule_invocation_counts@,
            m.max_stack_depth == self.metrics.max_stack_depth,
            m.heap_peak_usage == self.metrics.heap_peak_usage,
            m.graph_node_count == self.metrics.graph_node_count,
            m.current_stack_depth == self.metrics.current_stack_depth,
            m.current_heap_usage == self.metrics.current_heap_usage,
    {
        self.metrics.snapshot()
    }

    pub fn reset(&mut self)
        requires
            old(self).wf(),
        ensures
            final(self).metrics.is_zero(),
            final(self).config == old(self).config,
    {
        self.metrics.reset();
    }

    pub fn set_instruction_counting(&mut self, enabled: bool)
        ensures
            final(self).config == (PerformanceConfig { enable_instruction_counting: enabled, ..old(self).config }),
            final(self).metrics == old(self).metrics,
    {
        self.config.enable_instruction_counting = enabled;
    }

    pub fn set_opcode_breakdown(&mut self, enabled: bool)
        ensures
            final(self).config == (PerformanceConfig { enable_opcode_breakdown: enabled, ..old(self).config }),
            final(self).metrics == old(self).metrics,
    {
        self.config.enable_opcode_breakdown = enabled;
    }

    pub fn set_stack_monitoring(&mut self, enabled: bool)
        ensures
            final(self).config == (PerformanceConfig { enable_stack_monitoring: enabled, ..old(self).config }),
            final(self).metrics == old(self).metrics,
    {
        self.config.enable_stack_monitoring = enabled;
    }

    pub fn set_heap_monitoring(&mut self, enabled: bool)
        ensures
            final(self).config == (PerformanceConfig { enable_heap_monitoring: enabled, ..old(self).config }),
            final(self).metrics == old(self).metrics,
    {
        self.config.enable_heap_monitoring = enabled;
    }

    pub fn set_rule_monitoring(&mut self, enabled: bool)
        ensures
            final(self).config == (PerformanceConfig { enable_rule_monitoring: enabled, ..old(self).config }),
            final(self).metrics == old(self).metrics,
    {
        self.config.enable_rule_monitoring = enabled;
    }

    pub fn set_graph_monitoring(&mut self, enabled: bool)
        ensures
            final(self).config == (PerformanceConfig { enable_graph_monitoring: enabled, ..old(self).config }),
            final(self).metrics == old(self).metrics,
    {
        self.config.enable_graph_monitoring = enabled;
    }

    /// The report text: the totals, then one line per opcode and one per rule, each
    /// section present only when it has lines.
    pub open spec fn report(m: PerformanceMetrics) -> Seq<char> {
        "Performance Report:\n"@
            + "  Total Instructions: "@ + decimal(m.instruction_count as nat) + "\n"@
            + "  Max Stack Depth: "@ + decimal(m.max_stack_depth as nat) + "\n"@
            + "  Heap Peak Usage: "@ + decimal(m.heap_peak_usage as nat) + "\n"@
            + "  Graph Node Count: "@ + decimal(m.graph_node_count as nat) + "\n"@
            + (if m.per_opcode_count.key_seq().len() > 0 {
                "  Opcode Breakdown:\n"@ + opcode_lines(m.per_opcode_count.key_seq(), m.per_opcode_count@)
            } else {
                Seq::empty()
            })
            + (if m.rule_invocation_counts.key_seq().len() > 0 {
                "  Rule Invocations:\n"@ + rule_lines(m.rule_invocation_counts.key_seq(), m.rule_invocation_counts@)
            } else {
                Seq::empty()
            })
    }

    pub fn generate_report(&self) -> (s: String)
        requires
            self.wf(),
        ensures
            s@ == Self::report(self.metrics),
    {
        let m = &self.metrics;
        let mut report = "Performance Report:\n".to_owned();
        report.append("  Total Instructions: ");
        report.append(u64_to_decimal(m.instruction_count).as_str());
        report.append("\n");
        report.append("  Max Stack Depth: ");
        report.append(u64_to_decimal(m.max_stack_depth).as_str());
        report.append("\n");
        report.append("  Heap Peak Usage: ");
        report.append(u64_to_decimal(m.heap_peak_usage).as_str());
        report.append("\n");
        report.append("  Graph Node Count: ");
        report.append(u64_to_decimal(m.graph_node_count).as_str());
        report.append("\n");
        let ghost head = report@;
        if m.per_opcode_count.len() > 0 {
            report.append("  Opcode Breakdown:\n");
            let ghost start = report@;
            let mut i: usize = 0;
            while i < m.per_opcode_count.len()
                invariant
                    m.wf(),
                    i <= m.per_opcode_count.spec_len(),
                    report@ == start + opcode_lines(m.per_opcode_count.key_seq().subrange(0, i as int), m.per_opcode_count@),
                decreases m.per_opcode_count.spec_len() - i,
            {
                let k = m.per_opcode_count.key_at(i);
                let v = *m.per_opcode_count.val_at(i);
                report.append("    ");
                report.append(code_name_str(k));
                report.append(": ");
                report.append(u64_to_decimal(v).as_str());
                report.append("\n");
                proof {
                    let ks = m.per_opcode_count.key_seq();
                    assert(ks.subrange(0, i + 1).drop_last() =~= ks.subrange(0, i as int));
                    assert(ks.subrange(0, i + 1).last() == k);
                }
                i += 1;
            }
            assert(m.per_opcode_count.key_seq().subrange(0, i as int) =~= m.per_opcode_count.key_seq());
        }
        let ghost mid = report@;
        if m.rule_invocation_counts.len() > 0 {
            report.append("  Rule Invocations:\n");
            let ghost start = report@;
            let mut i: usize = 0;
            while i < m.rule_invocation_counts.len()
                invariant
                    m.wf(),
                    i <= m.rule_invocation_counts.spec_len(),
                    report@ == start + rule_lines(m.rule_invocation_counts.key_seq().subrange(0, i as int), m.rule_invocation_counts@),
                decreases m.rule_invocation_counts.spec_len() - i,
            {
                let k = m.rule_invocation_counts.key_at(i);
                let v = *m.rule_invocation_counts.val_at(i);
                report.append("    ");
                report.append(k.as_str());
                report.append(": ");
                report.append(u64_to_decimal(v).as_str());
                report.append("\n");
                proof {
                    let ks = m.rule_invocation_counts.key_seq();
                    assert(ks.subrange(0, i + 1).drop_last() =~= ks.subrange(0, i as int));
                    assert(ks.subrange(0, i + 1).last() == k@);
                }
                i += 1;
            }
            assert(m.rule_invocation_counts.key_seq().subrange(0, i as int) =~= m.rule_invocation_counts.key_seq());
        }
        assert(report@ =~= Self::report(self.metrics));
        report
    }
}

/// Components that report their performance to a monitor.
pub trait PerformanceTracked {
    fn record_performance(&self, monitor: &mut PerformanceMonitor);
}

} // verus!
