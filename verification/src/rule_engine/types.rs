//! Values, patterns, priorities and rule metadata shared by the rule engine.
use vstd::prelude::*;
use crate::maps::NameMap;

verus! {

/// A runtime value of the rule engine.
#[derive(Debug)]
pub enum Value {
    Sym(String),
    Num(i64),
    Bool(bool),
    Vec(Vec<Value>),
    /// an external reference
    Ref(String),
}

/// The mathematical content of a `Value`.
pub enum ValueV {
    Sym(Seq<char>),
    Num(i64),
    Bool(bool),
    List(Seq<ValueV>),
    Ref(Seq<char>),
}

impl Value {
    pub open spec fn view(&self) -> ValueV
        decreases self,
    {
        match self {
            Value::Sym(s) => ValueV::Sym(s@),
            Value::Num(n) => ValueV::Num(*n),
            Value::Bool(b) => ValueV::Bool(*b),
            Value::Vec(items) => ValueV::List(value_views(items@)),
            Value::Ref(s) => ValueV::Ref(s@),
        }
    }

    /// A copy with the same content.
    pub fn deep_copy(&self) -> (r: Value)
        ensures
            r@ == self@,
        decreases self,
    {
        match self {
            Value::Sym(s) => Value::Sym(s.clone()),
            Value::Num(n) => Value::Num(*n),
            Value::Bool(b) => Value::Bool(*b),
            Value::Ref(s) => Value::Ref(s.clone()),
            Value::Vec(items) => {
                let mut out: Vec<Value> = Vec::new();
                let mut i: usize = 0;
                proof {
                    lemma_value_views(items@);
                }
                while i < items.len()
                    invariant
                        *self == Value::Vec(*items),
                        i <= items.len(),
                        out@.len() == i,
                        forall|j: int| 0 <= j < i ==> #[trigger] out@[j]@ == items@[j]@,
                    decreases items.len() - i,
                {
                    proof {
                        assert(decreases_to!(*items => items[i as int]));
                        assert(decreases_to!(*self => (*self)->Vec_0));
                        assert(decreases_to!(*self => items[i as int]));
                    }
                    let c = items[i].deep_copy();
                    out.push(c);
                    i += 1;
                }
                proof {
                    lemma_value_views(items@);
                    lemma_value_views(out@);
                    assert(value_views(out@) =~= value_views(items@));
                }
                Value::Vec(out)
            },
        }
    }
}

impl Clone for Value {
    fn clone(&self) -> (r: Self)
        ensures
            r@ == self@,
    {
        self.deep_copy()
    }
}

/// The contents of a sequence of values.
pub open spec fn value_views(s: Seq<Value>) -> Seq<ValueV>
    decreases s,
{
    if s.len() == 0 {
        Seq::empty()
    } else {
        value_views(s.drop_last()).push(s.last().view())
    }
}

pub proof fn lemma_value_views(s: Seq<Value>)
    ensures
        value_views(s).len() == s.len(),
        forall|i: int| 0 <= i < s.len() ==> #[trigger] value_views(s)[i] == s[i]@,
    decreases s.len(),
{
    if s.len() > 0 {
        lemma_value_views(s.drop_last());
    }
}

/// Value equality by content.
pub fn value_eq(a: &Value, b: &Value) -> (r: bool)
    ensures
        r == (a@ == b@),
    decreases a,
{
    match (a, b) {
        (Value::Sym(x), Value::Sym(y)) => *x == *y,
        (Value::Num(x), Value::Num(y)) => *x == *y,
        (Value::Bool(x), Value::Bool(y)) => *x == *y,
        (Value::Ref(x), Value::Ref(y)) => *x == *y,
        (Value::Vec(xs), Value::Vec(ys)) => {
            proof {
                lemma_value_views(xs@);
                lemma_value_views(ys@);
            }
            if xs.len() != ys.len() {
                assert(value_views(xs@).len() != value_views(ys@).len());
                assert(a@ != b@);
                return false;
            }
            let mut i: usize = 0;
            while i < xs.len()
                invariant
                    *a == Value::Vec(*xs),
                    *b == Value::Vec(*ys),
                    xs.len() == ys.len(),
                    i <= xs.len(),
                    value_views(xs@).len() == xs.len(),
                    value_views(ys@).len() == ys.len(),
                    forall|j: int| 0 <= j < xs.len() ==> #[trigger] value_views(xs@)[j] == xs@[j]@,
                    forall|j: int| 0 <= j < ys.len() ==> #[trigger] value_views(ys@)[j] == ys@[j]@,
                    forall|j: int| 0 <= j < i ==> xs@[j]@ == ys@[j]@,
                decreases xs.len() - i,
            {
                proof {
                    assert(decreases_to!(*xs => xs[i as int]));
                    assert(decreases_to!(*a => (*a)->Vec_0));
                    assert(decreases_to!(*a => xs[i as int]));
                }
                if !value_eq(&xs[i], &ys[i]) {
                    assert(value_views(xs@)[i as int] != value_views(ys@)[i as int]);
                    return false;
                }
                i += 1;
            }
            assert(value_views(xs@) =~= value_views(ys@));
            assert(a@ == b@);
            true
        },
        _ => false,
    }
}

impl PartialEq for Value {
    fn eq(&self, other: &Self) -> (r: bool) {
        value_eq(self, other)
    }
}

impl vstd::std_specs::cmp::PartialEqSpecImpl for Value {
    open spec fn obeys_eq_spec() -> bool {
        true
    }

    open spec fn eq_spec(&self, other: &Self) -> bool {
        self@ == other@
    }
}

/// The contents of a binding table.
pub open spec fn binding_view(m: Map<Seq<char>, Value>) -> Map<Seq<char>, ValueV> {
    m.map_values(|v: Value| v@)
}

/// The content of a register.
pub open spec fn register_view(r: Option<Value>) -> Option<ValueV> {
    match r {
        Some(v) => Some(v@),
        None => None,
    }
}

/// A pattern over values.
#[derive(Debug)]
pub enum Pattern {
    Value(Value),
    /// a variable that matches any value
    Variable(String),
    /// a structured pattern such as `(entity.field value)`
    Composite(String, Vec<Pattern>),
}

/// The content of a pattern.
pub enum PatternV {
    Value(ValueV),
    Variable(Seq<char>),
    Composite(Seq<char>, Seq<PatternV>),
}

pub open spec fn pattern_v(p: Pattern) -> PatternV
    decreases p,
{
    match p {
        Pattern::Value(v) => PatternV::Value(v@),
        Pattern::Variable(n) => PatternV::Variable(n@),
        Pattern::Composite(n, parts) => PatternV::Composite(n@, patterns_v(parts@)),
    }
}

pub open spec fn patterns_v(s: Seq<Pattern>) -> Seq<PatternV>
    decreases s,
{
    if s.len() == 0 {
        Seq::empty()
    } else {
        patterns_v(s.subrange(0, s.len() - 1)).push(pattern_v(s[s.len() - 1]))
    }
}

impl Pattern {
    /// A copy of the pattern, with the same content.
    pub fn deep_copy(&self) -> (r: Pattern)
        ensures
            pattern_v(r) == pattern_v(*self),
        decreases self,
    {
        match self {
            Pattern::Value(v) => Pattern::Value(v.deep_copy()),
            Pattern::Variable(n) => Pattern::Variable(n.clone()),
            Pattern::Composite(name, parts) => {
                let mut out: Vec<Pattern> = Vec::new();
                let mut i: usize = 0;
                assert(parts@.subrange(0, 0) =~= Seq::<Pattern>::empty());
                assert(out@ =~= Seq::<Pattern>::empty());
                while i < parts.len()
                    invariant
                        *self == Pattern::Composite(*name, *parts),
                        i <= parts.len(),
                        patterns_v(out@) == patterns_v(parts@.subrange(0, i as int)),
                    decreases parts.len() - i,
                {
                    proof {
                        assert(decreases_to!(*parts => parts[i as int]));
                        assert(decreases_to!(*self => (*self)->Composite_1));
                        assert(decreases_to!(*self => parts[i as int]));
                    }
                    let c = parts[i].deep_copy();
                    let ghost before = out@;
                    out.push(c);
                    proof {
                        assert(out@.subrange(0, out@.len() - 1) =~= before);
                        assert(parts@.subrange(0, i + 1).subrange(0, i as int) =~= parts@.subrange(0, i as int));
                    }
                    i += 1;
                }
                assert(parts@.subrange(0, parts@.len() as int) =~= parts@);
                Pattern::Composite(name.clone(), out)
            },
        }
    }
}

impl Clone for Pattern {
    fn clone(&self) -> Self {
        self.deep_copy()
    }
}

#[derive(Debug, Clone)]
pub struct PatternMatch {
    /// variable bindings of the match
    pub bindings: NameMap<Value>,
    /// the node that matched
    pub matched_node: u32,
}

#[derive(Debug, Clone)]
pub struct RuleMatch {
    pub rule_id: u32,
    pub bindings: NameMap<Value>,
}

#[derive(Debug, Clone, Copy, PartialEq, Eq)]
pub enum ResolutionMode {
    Ignore,
    Override,
    Merge,
    Error,
}

#[derive(Debug, Clone)]
pub struct ConflictEntry {
    pub target_symbol_id: u32,
    pub conflicting_rules: Vec<u32>,
    pub resolution_mode: ResolutionMode,
}

/// Comparison operators of rule conditions.
#[derive(Debug, Clone, Copy, PartialEq, Eq)]
pub enum Comparator {
    Equal,
    NotEqual,
    Greater,
    Less,
    GreaterEqual,
    LessEqual,
}

#[derive(Debug)]
pub enum RuleEngineError {
    InvalidNodeType,
    MissingRegisterValue(u16),
    InvalidComparison(Comparator, Value, Value),
    InvalidPredicate(String),
    ExecutionLimitExceeded,
}

#[derive(Debug, Clone, Copy, PartialEq, Eq)]
pub struct RulePriority {
    pub rule_id: u32,
    /// higher means earlier
    pub priority: u32,
    pub specificity: u32,
    pub recency: u32,
    pub activation_count: u32,
    pub conflict_score: u32,
}

/// How the engine ranks rules.
#[derive(Debug, Clone, Copy, PartialEq, Eq)]
pub enum PriorityStrategy {
    /// explicit priority first, then specificity, recency and activations
    Standard,
    /// more specific rules first
    SpecificityFirst,
    /// more recent rules first
    RecencyBased,
    /// rarely activated rules first
    FrequencyBased,
    /// rules with fewer conflicts first
    ConflictResolution,
}

/// Metadata of a rule while it is scheduled and run.
#[derive(Debug, Clone)]
pub struct RuleExecutionInfo {
    pub rule_id: u32,
    pub priority: u16,
    pub condition_graph_id: Option<u32>,
    pub action_graph_id: Option<u32>,
    pub dependencies: Vec<u32>,
    pub recursion_limit: u32,
    /// runs so far
    pub execution_count: u32,
}

impl RuleExecutionInfo {
    pub fn new(rule_id: u32) -> (r: Self)
        ensures
            r.rule_id == rule_id,
            r.priority == 10,
            r.condition_graph_id is None,
            r.action_graph_id is None,
            r.dependencies@ == Seq::<u32>::empty(),
            r.recursion_limit == 10,
            r.execution_count == 0,
    {
        RuleExecutionInfo {
            rule_id,
            priority: 10,
            condition_graph_id: None,
            action_graph_id: None,
            dependencies: Vec::new(),
            recursion_limit: 10,
            execution_count: 0,
        }
    }
}

/// The state a rule engine runs in: sixteen registers, variables, facts and results.
#[derive(Debug, Clone)]
pub struct ExecutionContext {
    /// R0 to R15; `None` while unset
    pub registers: Vec<Option<Value>>,
    pub variables: NameMap<Value>,
    pub facts: NameMap<Value>,
    pub rule_results: NameMap<bool>,
    pub current_node_id: Option<u32>,
}

impl ExecutionContext {
    pub open spec fn wf(&self) -> bool {
        &&& self.registers@.len() == 16
        &&& self.variables.wf()
        &&& self.facts.wf()
        &&& self.rule_results.wf()
    }

    /// A context with sixteen empty registers and no variables, facts or results.
    pub fn new() -> (c: Self)
        ensures
            c.wf(),
            forall|i: int| 0 <= i < 16 ==> c.registers@[i] is None,
            c.variables@ == Map::<Seq<char>, Value>::empty(),
            c.facts@ == Map::<Seq<char>, Value>::empty(),
            c.rule_results@ == Map::<Seq<char>, bool>::empty(),
            c.current_node_id is None,
    {
        ExecutionContext::with_node(None)
    }

    /// A fresh context that remembers the given current node.
    pub fn with_node(node: Option<u32>) -> (c: Self)
        ensures
            c.wf(),
            forall|i: int| 0 <= i < 16 ==> c.registers@[i] is None,
            c.variables@ == Map::<Seq<char>, Value>::empty(),
            c.facts@ == Map::<Seq<char>, Value>::empty(),
            c.rule_results@ == Map::<Seq<char>, bool>::empty(),
            c.current_node_id == node,
    {
        let mut registers: Vec<Option<Value>> = Vec::new();
        let mut i: usize = 0;
        while i < 16
            invariant
                i <= 16,
                registers@.len() == i,
                forall|j: int| 0 <= j < i ==> registers@[j] is None,
            decreases 16 - i,
        {
            registers.push(None);
            i += 1;
        }
        ExecutionContext {
            registers,
            variables: NameMap::new(),
            facts: NameMap::new(),
            rule_results: NameMap::new(),
            current_node_id: node,
        }
    }

    /// Same registers, variables, facts, results and current node, by content.
    pub open spec fn same_content(&self, other: &Self) -> bool {
        &&& self.registers@.len() == other.registers@.len()
        &&& forall|i: int| 0 <= i < self.registers@.len() ==> #[trigger] register_view(self.registers@[i]) == register_view(other.registers@[i])
        &&& binding_view(self.variables@) == binding_view(other.variables@)
        &&& binding_view(self.facts@) == binding_view(other.facts@)
        &&& self.rule_results@ == other.rule_results@
        &&& self.current_node_id == other.current_node_id
    }

    /// A copy with the same content.
    pub fn duplicate(&self) -> (c: Self)
        requires
            self.wf(),
        ensures
            c.wf(),
            c.same_content(self),
    {
        let mut registers: Vec<Option<Value>> = Vec::new();
        let mut i: usize = 0;
        while i < self.registers.len()
            invariant
                i <= self.registers.len(),
                registers@.len() == i,
                forall|j: int| 0 <= j < i ==> #[trigger] register_view(registers@[j]) == register_view(self.registers@[j]),
            decreases self.registers.len() - i,
        {
            let r = match &self.registers[i] {
                Some(v) => Some(v.deep_copy()),
                None => None,
            };
            registers.push(r);
            i += 1;
        }
        let variables = self.variables.duplicate();
        let facts = self.facts.duplicate();
        let rule_results = self.rule_results.duplicate();
        assert(binding_view(variables@) =~= binding_view(self.variables@));
        assert(binding_view(facts@) =~= binding_view(self.facts@));
        assert(rule_results@ =~= self.rule_results@);
        ExecutionContext { registers, variables, facts, rule_results, current_node_id: self.current_node_id }
    }
}

} // verus!
