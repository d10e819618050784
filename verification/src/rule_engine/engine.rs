//! The rule engine's state: context, rule priorities and strategy, the priority
//! queue of nodes, and the execution path that bounds recursion.
use vstd::prelude::*;
use crate::maps::{IdMap, NameMap};
use crate::rule_engine::types::{
    ExecutionContext, Pattern, PriorityStrategy, RuleEngineError, RuleExecutionInfo, RulePriority, Value, binding_view,
};
use crate::rule_engine::value_match::{Bindings, match_value, match_with_bindings};
use crate::sorting::{Ranked, sort_ranked, rank_sorted};
use vstd::multiset::Multiset;
use crate::text::{decimal, u64_to_decimal};

verus! {

broadcast use vstd::seq_lib::group_to_multiset_ensures;

/// Kinds of conflict between two rules.
#[derive(Debug, Clone, Copy, PartialEq, Eq)]
pub enum ConflictType {
    /// contradictory conditions
    ContradictoryConditions,
    /// conflicting actions
    ActionConflict,
    /// competition for the same resources
    ResourceConflict,
    /// conflicting changes of the same state
    StateConflict,
}

impl ConflictType {
    pub open spec fn spec_code(self) -> u32 {
        match self {
            ConflictType::ContradictoryConditions => 1,
            ConflictType::ActionConflict => 2,
            ConflictType::ResourceConflict => 3,
            ConflictType::StateConflict => 4,
        }
    }

    /// The numeric code of the conflict kind.
    pub fn code(self) -> (c: u32)
        ensures
            c == self.spec_code(),
    {
        match self {
            ConflictType::ContradictoryConditions => 1,
            ConflictType::ActionConflict => 2,
            ConflictType::ResourceConflict => 3,
            ConflictType::StateConflict => 4,
        }
    }
}

/// A conflict between two rules.
#[derive(Debug, Clone)]
pub struct RuleConflict {
    pub rule1_id: u32,
    pub rule2_id: u32,
    pub conflict_type: ConflictType,
    pub description: String,
}

/// The rank of a rule under a strategy, from its priority record.
pub open spec fn effective_priority(rp: RulePriority, s: PriorityStrategy) -> int {
    match s {
        PriorityStrategy::Standard => rp.priority * 1000 + rp.specificity * 100 + rp.recency * 10 + rp.activation_count / 10,
        PriorityStrategy::SpecificityFirst => rp.specificity * 1000 + rp.priority * 100 + rp.recency * 10,
        PriorityStrategy::RecencyBased => rp.recency * 1000 + rp.priority * 100 + rp.specificity * 10,
        PriorityStrategy::FrequencyBased => rp.priority * 1000 + (u32::MAX - rp.activation_count) * 100 + rp.specificity * 10,
        PriorityStrategy::ConflictResolution => rp.priority * 1000 + (u32::MAX - rp.conflict_score) * 100 + rp.specificity * 10,
    }
}

/// The variable that records that a rule has run: `rule_<id>_executed`.
pub open spec fn executed_key(id: u32) -> Seq<char> {
    "rule_"@ + decimal(id as nat) + "_executed"@
}

/// The variable that records that a rule has run.
pub fn executed_key_string(id: u32) -> (s: String)
    ensures
        s@ == executed_key(id),
{
    let d = u64_to_decimal(id as u64);
    crate::text::join3("rule_", d.as_str(), "_executed")
}

/// Each rule's active count is the number of its frames on the path.
pub open spec fn counts_follow_path(path: Seq<u32>, counts: Map<u32, u32>) -> bool {
    forall|r: u32| #[trigger] path.to_multiset().count(r) == if counts.contains_key(r) { counts[r] as nat } else { 0 }
}

/// The code of the last conflict in `cs` that names rule `r`.
pub open spec fn last_conflict_code(cs: Seq<RuleConflict>, r: u32) -> Option<u32>
    decreases cs.len(),
{
    if cs.len() == 0 {
        None
    } else if cs.last().rule1_id == r || cs.last().rule2_id == r {
        Some(cs.last().conflict_type.spec_code())
    } else {
        last_conflict_code(cs.drop_last(), r)
    }
}

/// Matching a list of patterns against as many values, one after the other, the
/// bindings accumulating; the bindings after each step, or `None` at the first failure.
pub open spec fn match_each_value(ps: Seq<Pattern>, vs: Seq<crate::rule_engine::types::ValueV>, b: Bindings) -> Option<Seq<Bindings>>
    decreases ps.len(),
{
    if ps.len() == 0 {
        Some(Seq::empty())
    } else {
        match match_value(ps[0], vs[0], b, false) {
            Some(b2) => match match_each_value(ps.drop_first(), vs.drop_first(), b2) {
                Some(rest) => Some(seq![b2] + rest),
                None => None,
            },
            None => None,
        }
    }
}

/// A copy of a binding table with the same contents.
pub fn copy_value_bindings(m: &NameMap<Value>) -> (r: NameMap<Value>)
    requires
        m.wf(),
    ensures
        r.wf(),
        binding_view(r@) == binding_view(m@),
{
    let r = m.duplicate();
    assert(binding_view(r@) =~= binding_view(m@));
    r
}

/// A queued node with its rank and its place in the queue.
pub struct QueueSlot {
    pub rank_value: u64,
    pub place: u64,
    pub node_id: u32,
}

impl Ranked for QueueSlot {
    open spec fn rank_spec(&self) -> (u64, u64) {
        (self.rank_value, self.place)
    }

    fn rank(&self) -> (r: (u64, u64)) {
        (self.rank_value, self.place)
    }
}

/// The rank of a rule under a priority table and a strategy; 0 for a rule without a record.
pub open spec fn rank_in(prios: Map<u32, RulePriority>, strategy: PriorityStrategy, r: u32) -> int {
    if prios.contains_key(r) {
        effective_priority(prios[r], strategy)
    } else {
        0
    }
}

/// The queued nodes with their ranks and places.
pub open spec fn slots_of(ids: Seq<u32>, prios: Map<u32, RulePriority>, strategy: PriorityStrategy) -> Seq<QueueSlot> {
    Seq::new(ids.len(), |i: int| QueueSlot { rank_value: rank_in(prios, strategy, ids[i]) as u64, place: i as u64, node_id: ids[i] })
}

/// The nodes by rank, highest first, in queue order among equal ranks.
pub open spec fn rank_order(ids: Seq<u32>, prios: Map<u32, RulePriority>, strategy: PriorityStrategy) -> Seq<u32> {
    rank_sorted(slots_of(ids, prios, strategy)).map_values(|s: QueueSlot| s.node_id)
}

pub struct RuleEngine {
    pub context: ExecutionContext,
    pub step_count: u32,
    pub max_steps: u32,
    /// node ids, highest rank first
    pub priority_queue: Vec<u32>,
    pub rule_priorities: IdMap<RulePriority>,
    /// activated rule nodes
    pub activation_records: Vec<u32>,
    pub priority_strategy: PriorityStrategy,
    /// rules now executing, innermost last
    pub execution_path: Vec<u32>,
    pub max_recursion_depth: u32,
    /// active executions per rule
    pub rule_execution_counts: IdMap<u32>,
}

impl RuleEngine {
    pub open spec fn wf(&self) -> bool {
        &&& self.context.wf()
        &&& self.rule_priorities.wf()
        &&& self.rule_execution_counts.wf()
        &&& self.rule_priorities@.dom().finite()
        &&& forall|r: u32| #[trigger] self.rule_priorities@.contains_key(r) ==> self.rule_priorities@[r].rule_id == r
        &&& counts_follow_path(self.execution_path@, self.rule_execution_counts@)
    }

    /// Frames of `r` on the execution path.
    pub open spec fn path_count(&self, r: u32) -> nat {
        self.execution_path@.to_multiset().count(r)
    }

    /// The rank of `r` under the current strategy; 0 for a rule without a priority record.
    pub open spec fn rank_of(&self, r: u32) -> int {
        rank_in(self.rule_priorities@, self.priority_strategy, r)
    }

    /// Executions of `r` now in progress.
    pub open spec fn active_count(&self, r: u32) -> u32 {
        if self.rule_execution_counts@.contains_key(r) { self.rule_execution_counts@[r] } else { 0 }
    }

    pub fn new() -> (e: Self)
        ensures
            e.wf(),
            e.step_count == 0,
            e.max_steps == 10000,
            e.priority_queue@ == Seq::<u32>::empty(),
            e.rule_priorities@ == Map::<u32, RulePriority>::empty(),
            e.activation_records@ == Seq::<u32>::empty(),
            e.priority_strategy == PriorityStrategy::Standard,
            e.execution_path@ == Seq::<u32>::empty(),
            e.max_recursion_depth == 100,
            e.rule_execution_counts@ == Map::<u32, u32>::empty(),
            e.context.current_node_id is None,
            e.context.variables@ == Map::<Seq<char>, Value>::empty(),
            e.context.facts@ == Map::<Seq<char>, Value>::empty(),
            forall|i: int| 0 <= i < 16 ==> e.context.registers@[i] is None,
    {
        RuleEngine {
            context: ExecutionContext::new(),
            step_count: 0,
            max_steps: 10000,
            priority_queue: Vec::new(),
            rule_priorities: IdMap::new(),
            activation_records: Vec::new(),
            priority_strategy: PriorityStrategy::Standard,
            execution_path: Vec::new(),
            max_recursion_depth: 100,
            rule_execution_counts: IdMap::new(),
        }
    }

    /// Records a rule's priority, specificity and recency, with no activations and no conflicts.
    pub fn set_rule_priority(&mut self, rule_id: u32, priority: u32, specificity: u32, recency: u32)
        requires
            old(self).wf(),
        ensures
            final(self).wf(),
            final(self).rule_priorities@ == old(self).rule_priorities@.insert(rule_id, RulePriority {
                rule_id, priority, specificity, recency, activation_count: 0, conflict_score: 0,
            }),
            final(self).priority_strategy == old(self).priority_strategy,
            final(self).priority_queue == old(self).priority_queue,
    {
        let rp = RulePriority { rule_id, priority, specificity, recency, activation_count: 0, conflict_score: 0 };
        self.rule_priorities.insert(rule_id, rp);
    }

    pub fn set_priority_strategy(&mut self, strategy: PriorityStrategy)
        ensures
            final(self).priority_strategy == strategy,
            final(self).rule_priorities == old(self).rule_priorities,
            final(self).context == old(self).context,
            final(self).priority_queue == old(self).priority_queue,
            final(self).execution_path == old(self).execution_path,
            final(self).rule_execution_counts == old(self).rule_execution_counts,
    {
        self.priority_strategy = strategy;
    }

    /// Counts one more activation of a rule that has a priority record.
    pub fn increment_rule_activation(&mut self, rule_id: u32)
        requires
            old(self).wf(),
            old(self).rule_priorities@.contains_key(rule_id) ==> old(self).rule_priorities@[rule_id].activation_count < u32::MAX,
        ensures
            final(self).wf(),
            old(self).rule_priorities@.contains_key(rule_id) ==> final(self).rule_priorities@ == old(self).rule_priorities@.insert(
                rule_id,
                RulePriority {
                    activation_count: (old(self).rule_priorities@[rule_id].activation_count + 1) as u32,
                    ..old(self).rule_priorities@[rule_id]
                },
            ),
            !old(self).rule_priorities@.contains_key(rule_id) ==> final(self).rule_priorities@ == old(self).rule_priorities@,
            final(self).priority_strategy == old(self).priority_strategy,
            final(self).step_count == old(self).step_count,
            final(self).max_steps == old(self).max_steps,
            final(self).activation_records == old(self).activation_records,
            final(self).max_recursion_depth == old(self).max_recursion_depth,
            final(self).context == old(self).context,
            final(self).priority_queue == old(self).priority_queue,
            final(self).execution_path == old(self).execution_path,
            final(self).rule_execution_counts == old(self).rule_execution_counts,
    {
        match self.rule_priorities.get(rule_id) {
            Some(rp) => {
                let updated = RulePriority { activation_count: rp.activation_count + 1, ..*rp };
                self.rule_priorities.insert(rule_id, updated);
            },
            None => {},
        }
    }

    /// Sets the conflict score of a rule that has a priority record.
    pub fn update_rule_conflict_score(&mut self, rule_id: u32, score: u32)
        requires
            old(self).wf(),
        ensures
            final(self).wf(),
            old(self).rule_priorities@.contains_key(rule_id) ==> final(self).rule_priorities@ == old(self).rule_priorities@.insert(
                rule_id,
                RulePriority { conflict_score: score, ..old(self).rule_priorities@[rule_id] },
            ),
            !old(self).rule_priorities@.contains_key(rule_id) ==> final(self).rule_priorities@ == old(self).rule_priorities@,
            final(self).priority_strategy == old(self).priority_strategy,
            final(self).priority_queue == old(self).priority_queue,
            final(self).step_count == old(self).step_count,
            final(self).max_steps == old(self).max_steps,
            final(self).activation_records == old(self).activation_records,
            final(self).max_recursion_depth == old(self).max_recursion_depth,
            final(self).context == old(self).context,
            final(self).execution_path == old(self).execution_path,
            final(self).rule_execution_counts == old(self).rule_execution_counts,
    {
        match self.rule_priorities.get(rule_id) {
            Some(rp) => {
                let updated = RulePriority { conflict_score: score, ..*rp };
                self.rule_priorities.insert(rule_id, updated);
            },
            None => {},
        }
    }

    /// The rank of a rule under the current strategy.
    pub(crate) fn get_rule_priority(&self, rule_id: u32) -> (p: u64)
        requires
            self.wf(),
        ensures
            p == self.rank_of(rule_id),
    {
        match self.rule_priorities.get(rule_id) {
            Some(rp) => {
                let p = rp.priority as u64;
                let s = rp.specificity as u64;
                let r = rp.recency as u64;
                let a = rp.activation_count as u64;
                let c = rp.conflict_score as u64;
                match self.priority_strategy {
                    PriorityStrategy::Standard => p * 1000 + s * 100 + r * 10 + a / 10,
                    PriorityStrategy::SpecificityFirst => s * 1000 + p * 100 + r * 10,
                    PriorityStrategy::RecencyBased => r * 1000 + p * 100 + s * 10,
                    PriorityStrategy::FrequencyBased => p * 1000 + (0xffff_ffffu64 - a) * 100 + s * 10,
                    PriorityStrategy::ConflictResolution => p * 1000 + (0xffff_ffffu64 - c) * 100 + s * 10,
                }
            },
            None => 0,
        }
    }

    /// The queue reordered by rank, highest first, keeping the queue order among equals.
    pub(crate) fn sorted_queue(&self, ids: Vec<u32>) -> (r: Vec<u32>)
        requires
            self.wf(),
        ensures
            r@ == rank_order(ids@, self.rule_priorities@, self.priority_strategy),
            r@.to_multiset() == ids@.to_multiset(),
            r@.len() == ids@.len(),
            forall|i: int, j: int| 0 <= i < j < r@.len() ==> self.rank_of(#[trigger] r@[i]) >= self.rank_of(#[trigger] r@[j]),
    {
        let mut slots: Vec<QueueSlot> = Vec::new();
        let mut i: usize = 0;
        while i < ids.len()
            invariant
                self.wf(),
                i <= ids.len(),
                slots@.len() == i,
                forall|j: int| 0 <= j < i ==> (#[trigger] slots@[j]).node_id == ids@[j] && slots@[j].rank_value == self.rank_of(ids@[j])
                    && slots@[j].place == j,
            decreases ids.len() - i,
        {
            let k = self.get_rule_priority(ids[i]);
            slots.push(QueueSlot { rank_value: k, place: i as u64, node_id: ids[i] });
            i += 1;
        }
        let ghost ids_of = |s: QueueSlot| s.node_id;
        assert(slots@.map_values(ids_of) =~= ids@);
        assert(slots@ =~= slots_of(ids@, self.rule_priorities@, self.priority_strategy));
        let sorted = sort_ranked(slots);
        let mut out: Vec<u32> = Vec::new();
        let mut k: usize = 0;
        while k < sorted.len()
            invariant
                k <= sorted.len(),
                out@.len() == k,
                forall|j: int| 0 <= j < k ==> out@[j] == (#[trigger] sorted@[j]).node_id,
            decreases sorted.len() - k,
        {
            out.push(sorted[k].node_id);
            k += 1;
        }
        proof {
            assert(out@ =~= sorted@.map_values(ids_of));
            assert(out@ =~= rank_order(ids@, self.rule_priorities@, self.priority_strategy));
            crate::sorting::lemma_map_same_elements(sorted@, slots@, ids_of);
            assert forall|a: int, b: int| 0 <= a < b < out@.len() implies self.rank_of(#[trigger] out@[a]) >= self.rank_of(#[trigger] out@[b]) by {
                assert(sorted@.contains(sorted@[a]));
                assert(sorted@.contains(sorted@[b]));
                assert(slots@.to_multiset().count(sorted@[a]) > 0);
                assert(slots@.to_multiset().count(sorted@[b]) > 0);
                assert(slots@.contains(sorted@[a]));
                assert(slots@.contains(sorted@[b]));
                let ia = choose|x: int| 0 <= x < slots@.len() && slots@[x] == sorted@[a];
                let ib = choose|x: int| 0 <= x < slots@.len() && slots@[x] == sorted@[b];
                assert(slots@[ia].node_id == ids@[ia]);
                assert(slots@[ib].node_id == ids@[ib]);
                assert(!crate::sorting::goes_before(sorted@[b].rank_spec(), sorted@[a].rank_spec()));
                assert(out@[a] == sorted@[a].node_id);
                assert(out@[b] == sorted@[b].node_id);
            }
        }
        out
    }

    /// Puts a node in the queue, unless it is there, and reorders the queue by rank.
    fn add_to_priority_queue(&mut self, node_id: u32)
        requires
            old(self).wf(),
        ensures
            final(self).wf(),
            old(self).priority_queue@.contains(node_id) ==> final(self).priority_queue@ == old(self).priority_queue@,
            !old(self).priority_queue@.contains(node_id) ==> final(self).priority_queue@
                == rank_order(old(self).priority_queue@.push(node_id), old(self).rule_priorities@, old(self).priority_strategy),
            !old(self).priority_queue@.contains(node_id) ==> final(self).priority_queue@.to_multiset() == old(self).priority_queue@.push(node_id).to_multiset(),
            !old(self).priority_queue@.contains(node_id) ==> forall|i: int, j: int| 0 <= i < j < final(self).priority_queue@.len()
                ==> final(self).rank_of(#[trigger] final(self).priority_queue@[i]) >= final(self).rank_of(#[trigger] final(self).priority_queue@[j]),
            final(self).rule_priorities == old(self).rule_priorities,
            final(self).priority_strategy == old(self).priority_strategy,
            final(self).context == old(self).context,
            final(self).execution_path == old(self).execution_path,
            final(self).rule_execution_counts == old(self).rule_execution_counts,
            final(self).step_count == old(self).step_count,
            final(self).max_steps == old(self).max_steps,
            final(self).activation_records == old(self).activation_records,
            final(self).max_recursion_depth == old(self).max_recursion_depth,
    {
        let mut i: usize = 0;
        while i < self.priority_queue.len()
            invariant
                self.wf(),
                *self == *old(self),
                i <= self.priority_queue.len(),
                forall|j: int| 0 <= j < i ==> self.priority_queue@[j] != node_id,
            decreases self.priority_queue.len() - i,
        {
            if self.priority_queue[i] == node_id {
                return;
            }
            i += 1;
        }
        let mut q: Vec<u32> = Vec::new();
        std::mem::swap(&mut q, &mut self.priority_queue);
        q.push(node_id);
        let sorted = self.sorted_queue(q);
        self.priority_queue = sorted;
    }

    /// Puts a node in the queue under the current strategy; see `add_to_priority_queue`.
    pub(crate) fn add_to_priority_queue_with_strategy(&mut self, node_id: u32)
        requires
            old(self).wf(),
        ensures
            final(self).wf(),
            old(self).priority_queue@.contains(node_id) ==> final(self).priority_queue@ == old(self).priority_queue@,
            !old(self).priority_queue@.contains(node_id) ==> final(self).priority_queue@
                == rank_order(old(self).priority_queue@.push(node_id), old(self).rule_priorities@, old(self).priority_strategy),
            !old(self).priority_queue@.contains(node_id) ==> final(self).priority_queue@.to_multiset() == old(self).priority_queue@.push(node_id).to_multiset(),
            !old(self).priority_queue@.contains(node_id) ==> forall|i: int, j: int| 0 <= i < j < final(self).priority_queue@.len()
                ==> final(self).rank_of(#[trigger] final(self).priority_queue@[i]) >= final(self).rank_of(#[trigger] final(self).priority_queue@[j]),
            final(self).rule_priorities == old(self).rule_priorities,
            final(self).priority_strategy == old(self).priority_strategy,
            final(self).context == old(self).context,
            final(self).execution_path == old(self).execution_path,
            final(self).rule_execution_counts == old(self).rule_execution_counts,
            final(self).step_count == old(self).step_count,
            final(self).max_steps == old(self).max_steps,
            final(self).activation_records == old(self).activation_records,
            final(self).max_recursion_depth == old(self).max_recursion_depth,
    {
        self.add_to_priority_queue(node_id)
    }

    /// Takes the node of highest rank out of the queue.
    pub(crate) fn select_next_node(&mut self) -> (r: Option<u32>)
        requires
            old(self).wf(),
        ensures
            final(self).wf(),
            old(self).priority_queue@.len() == 0 ==> r is None && final(self).priority_queue@ == old(self).priority_queue@,
            old(self).priority_queue@.len() > 0 ==> ({
                let s = rank_order(old(self).priority_queue@, old(self).rule_priorities@, old(self).priority_strategy);
                r == Some(s[0]) && final(self).priority_queue@ == s.subrange(1, s.len() as int)
            }),
            old(self).priority_queue@.len() > 0 ==> (r matches Some(n) && final(self).priority_queue@.push(n).to_multiset() == old(self).priority_queue@.to_multiset()
                && forall|k: int| 0 <= k < old(self).priority_queue@.len() ==> final(self).rank_of(#[trigger] old(self).priority_queue@[k]) <= final(self).rank_of(n)),
            final(self).rule_priorities == old(self).rule_priorities,
            final(self).priority_strategy == old(self).priority_strategy,
            final(self).context == old(self).context,
            final(self).execution_path == old(self).execution_path,
            final(self).rule_execution_counts == old(self).rule_execution_counts,
            final(self).step_count == old(self).step_count,
            final(self).max_steps == old(self).max_steps,
            final(self).activation_records == old(self).activation_records,
            final(self).max_recursion_depth == old(self).max_recursion_depth,
    {
        if self.priority_queue.len() == 0 {
            return None;
        }
        let mut q: Vec<u32> = Vec::new();
        std::mem::swap(&mut q, &mut self.priority_queue);
        let ghost q0 = q@;
        let mut sorted = self.sorted_queue(q);
        let ghost s0 = sorted@;
        let first = sorted.remove(0);
        proof {
            assert(s0 =~= seq![first] + sorted@);
            assert(sorted@ =~= s0.subrange(1, s0.len() as int));
            assert(s0.to_multiset() == sorted@.to_multiset().insert(first));
            assert(sorted@.push(first).to_multiset() == sorted@.to_multiset().insert(first));
            assert forall|k: int| 0 <= k < q0.len() implies self.rank_of(#[trigger] q0[k]) <= self.rank_of(first) by {
                assert(q0.to_multiset().count(q0[k]) > 0);
                assert(s0.to_multiset().count(q0[k]) > 0);
                assert(s0.contains(q0[k]));
                let x = choose|x: int| 0 <= x < s0.len() && s0[x] == q0[k];
                if x > 0 {
                    assert(self.rank_of(s0[0]) >= self.rank_of(s0[x]));
                }
            }
        }
        self.priority_queue = sorted;
        Some(first)
    }

    /// A fresh context that keeps the current node.
    pub fn create_context(&mut self) -> (c: ExecutionContext)
        ensures
            c.wf(),
            forall|i: int| 0 <= i < 16 ==> c.registers@[i] is None,
            c.variables@ == Map::<Seq<char>, Value>::empty(),
            c.facts@ == Map::<Seq<char>, Value>::empty(),
            c.rule_results@ == Map::<Seq<char>, bool>::empty(),
            c.current_node_id == old(self).context.current_node_id,
            *final(self) == *old(self),
    {
        ExecutionContext::with_node(self.context.current_node_id)
    }

    pub fn switch_context(&mut self, new_context: ExecutionContext)
        ensures
            final(self).context == new_context,
            final(self).rule_priorities == old(self).rule_priorities,
            final(self).priority_strategy == old(self).priority_strategy,
            final(self).priority_queue == old(self).priority_queue,
            final(self).execution_path == old(self).execution_path,
            final(self).rule_execution_counts == old(self).rule_execution_counts,
    {
        self.context = new_context;
    }

    /// A copy of the current context.
    pub fn clone_context(&self) -> (c: ExecutionContext)
        requires
            self.wf(),
        ensures
            c.wf(),
            c.same_content(&self.context),
    {
        self.context.duplicate()
    }

    pub fn set_variable(&mut self, name: &str, value: Value)
        requires
            old(self).wf(),
        ensures
            final(self).wf(),
            final(self).context.variables@ == old(self).context.variables@.insert(name@, value),
            final(self).context.facts == old(self).context.facts,
            final(self).context.registers == old(self).context.registers,
            final(self).rule_priorities == old(self).rule_priorities,
            final(self).priority_queue == old(self).priority_queue,
    {
        self.context.variables.insert(name.to_owned(), value);
    }

    pub fn get_variable(&self, name: &str) -> (r: Option<&Value>)
        requires
            self.wf(),
        ensures
            match r {
                Some(v) => self.context.variables@.contains_key(name@) && *v == self.context.variables@[name@],
                None => !self.context.variables@.contains_key(name@),
            },
    {
        self.context.variables.get(name)
    }

    /// The bindings of a match of `pattern` against `value`, if it matches.
    pub fn match_pattern(&self, pattern: &Pattern, value: &Value) -> (r: Option<NameMap<Value>>)
        ensures
            match r {
                Some(b) => b.wf() && match_value(*pattern, value@, Map::empty(), false) == Some(binding_view(b@)),
                None => match_value(*pattern, value@, Map::empty(), false) is None,
            },
    {
        let mut bindings: NameMap<Value> = NameMap::new();
        assert(binding_view(bindings@) =~= Map::empty());
        if match_with_bindings(pattern, value, &mut bindings, false) {
            Some(bindings)
        } else {
            None
        }
    }

    /// The bindings of a match in the extended form, if it matches.
    pub fn match_complex_pattern(&self, pattern: &Pattern, value: &Value) -> (r: Option<NameMap<Value>>)
        ensures
            match r {
                Some(b) => b.wf() && match_value(*pattern, value@, Map::empty(), true) == Some(binding_view(b@)),
                None => match_value(*pattern, value@, Map::empty(), true) is None,
            },
    {
        let mut bindings: NameMap<Value> = NameMap::new();
        assert(binding_view(bindings@) =~= Map::empty());
        if match_with_bindings(pattern, value, &mut bindings, true) {
            Some(bindings)
        } else {
            None
        }
    }

    /// Matches patterns against as many values in turn, bindings accumulating;
    /// the bindings after each step, or `None` on a length mismatch or a failure.
    pub fn match_multiple_patterns(&self, patterns: &[Pattern], values: &[Value]) -> (r: Option<Vec<NameMap<Value>>>)
        ensures
            patterns@.len() != values@.len() ==> r is None,
            patterns@.len() == values@.len() ==> match r {
                Some(v) => (forall|i: int| 0 <= i < v@.len() ==> (#[trigger] v@[i]).wf())
                    && match_each_value(patterns@, crate::rule_engine::types::value_views(values@), Map::empty())
                        == Some(v@.map_values(|m: NameMap<Value>| binding_view(m@))),
                None => match_each_value(patterns@, crate::rule_engine::types::value_views(values@), Map::empty()) is None,
            },
    {
        if patterns.len() != values.len() {
            return None;
        }
        let ghost vs_all = crate::rule_engine::types::value_views(values@);
        proof {
            crate::rule_engine::types::lemma_value_views(values@);
        }
        let mut all: Vec<NameMap<Value>> = Vec::new();
        let mut global: NameMap<Value> = NameMap::new();
        proof {
            assert(binding_view(global@) =~= Map::empty());
            assert(patterns@.skip(0) =~= patterns@);
            assert(vs_all.skip(0) =~= vs_all);
        }
        let mut i: usize = 0;
        while i < patterns.len()
            invariant
                patterns@.len() == values@.len(),
                vs_all == crate::rule_engine::types::value_views(values@),
                vs_all.len() == values@.len(),
                forall|j: int| 0 <= j < values@.len() ==> #[trigger] vs_all[j] == values@[j]@,
                i <= patterns@.len(),
                global.wf(),
                all@.len() == i,
                forall|j: int| 0 <= j < all@.len() ==> (#[trigger] all@[j]).wf(),
                match_each_value(patterns@, vs_all, Map::empty()) == match match_each_value(patterns@.skip(i as int), vs_all.skip(i as int), binding_view(global@)) {
                    Some(rest) => Some(all@.map_values(|m: NameMap<Value>| binding_view(m@)) + rest),
                    None => None::<Seq<Bindings>>,
                },
            decreases patterns@.len() - i,
        {
            let ghost ps = patterns@.skip(i as int);
            let ghost vs = vs_all.skip(i as int);
            proof {
                assert(ps[0] == patterns@[i as int]);
                assert(vs[0] == values@[i as int]@);
                assert(ps.drop_first() =~= patterns@.skip(i + 1));
                assert(vs.drop_first() =~= vs_all.skip(i + 1));
            }
            let mut local = copy_value_bindings(&global);
            if match_with_bindings(&patterns[i], &values[i], &mut local, false) {
                global = local;
                let snapshot = copy_value_bindings(&global);
                let ghost before = all@.map_values(|m: NameMap<Value>| binding_view(m@));
                all.push(snapshot);
                proof {
                    assert(all@.map_values(|m: NameMap<Value>| binding_view(m@)) =~= before.push(binding_view(global@)));
                    let b2 = binding_view(global@);
                    match match_each_value(ps.drop_first(), vs.drop_first(), b2) {
                        Some(rest) => {
                            assert(before + (seq![b2] + rest) =~= before.push(b2) + rest);
                        },
                        None => {},
                    }
                }
            } else {
                return None;
            }
            i += 1;
        }
        proof {
            assert(patterns@.skip(i as int).len() == 0);
            assert(all@.map_values(|m: NameMap<Value>| binding_view(m@)) + Seq::<Bindings>::empty() =~= all@.map_values(|m: NameMap<Value>| binding_view(m@)));
        }
        Some(all)
    }

    /// Records the conflict kind as the conflict score of both rules of each
    /// conflict, and switches to conflict resolution when there was any conflict.
    pub fn resolve_conflicts(&mut self, conflicts: &[RuleConflict])
        requires
            old(self).wf(),
        ensures
            final(self).wf(),
            final(self).rule_priorities@.dom() == old(self).rule_priorities@.dom(),
            conflicts@.len() > 0 ==> final(self).priority_strategy == PriorityStrategy::ConflictResolution,
            conflicts@.len() == 0 ==> final(self).priority_strategy == old(self).priority_strategy && final(self).rule_priorities@ == old(self).rule_priorities@,
            forall|r: u32| #[trigger] final(self).rule_priorities@.contains_key(r) ==> {
                let old_rp = old(self).rule_priorities@[r];
                let new_rp = final(self).rule_priorities@[r];
                &&& new_rp.priority == old_rp.priority
                &&& new_rp.specificity == old_rp.specificity
                &&& new_rp.recency == old_rp.recency
                &&& new_rp.activation_count == old_rp.activation_count
                &&& (last_conflict_code(conflicts@, r) matches Some(c) ==> new_rp.conflict_score == c)
                &&& (last_conflict_code(conflicts@, r) is None ==> new_rp.conflict_score == old_rp.conflict_score)
            },
            final(self).priority_queue == old(self).priority_queue,
            final(self).step_count == old(self).step_count,
            final(self).max_steps == old(self).max_steps,
            final(self).activation_records == old(self).activation_records,
            final(self).max_recursion_depth == old(self).max_recursion_depth,
            final(self).context == old(self).context,
            final(self).execution_path == old(self).execution_path,
            final(self).rule_execution_counts == old(self).rule_execution_counts,
    {
        let mut i: usize = 0;
        while i < conflicts.len()
            invariant
                self.wf(),
                i <= conflicts@.len(),
                self.step_count == old(self).step_count,
                self.max_steps == old(self).max_steps,
                self.activation_records == old(self).activation_records,
                self.max_recursion_depth == old(self).max_recursion_depth,
                self.context == old(self).context,
                self.execution_path == old(self).execution_path,
                self.rule_execution_counts == old(self).rule_execution_counts,
                self.priority_strategy == old(self).priority_strategy,
                self.priority_queue == old(self).priority_queue,
                self.rule_priorities@.dom() == old(self).rule_priorities@.dom(),
                forall|r: u32| #[trigger] self.rule_priorities@.contains_key(r) ==> {
                    let old_rp = old(self).rule_priorities@[r];
                    let new_rp = self.rule_priorities@[r];
                    &&& new_rp.priority == old_rp.priority
                    &&& new_rp.specificity == old_rp.specificity
                    &&& new_rp.recency == old_rp.recency
                    &&& new_rp.activation_count == old_rp.activation_count
                    &&& (last_conflict_code(conflicts@.subrange(0, i as int), r) matches Some(c) ==> new_rp.conflict_score == c)
                    &&& (last_conflict_code(conflicts@.subrange(0, i as int), r) is None ==> new_rp.conflict_score == old_rp.conflict_score)
                },
            decreases conflicts@.len() - i,
        {
            let code = conflicts[i].conflict_type.code();
            self.update_rule_conflict_score(conflicts[i].rule1_id, code);
            self.update_rule_conflict_score(conflicts[i].rule2_id, code);
            proof {
                assert(conflicts@.subrange(0, i + 1).drop_last() =~= conflicts@.subrange(0, i as int));
                assert(self.rule_priorities@.dom() =~= old(self).rule_priorities@.dom());
            }
            i += 1;
        }
        proof {
            assert(conflicts@.subrange(0, i as int) =~= conflicts@);
            if conflicts@.len() == 0 {
                assert(self.rule_priorities@ =~= old(self).rule_priorities@);
            }
        }
        if conflicts.len() > 0 {
            self.priority_strategy = PriorityStrategy::ConflictResolution;
        }
    }

    pub fn set_max_recursion_depth(&mut self, depth: u32)
        ensures
            final(self).max_recursion_depth == depth,
            final(self).execution_path == old(self).execution_path,
            final(self).rule_execution_counts == old(self).rule_execution_counts,
            final(self).rule_priorities == old(self).rule_priorities,
            final(self).priority_strategy == old(self).priority_strategy,
            final(self).priority_queue == old(self).priority_queue,
            final(self).context == old(self).context,
    {
        self.max_recursion_depth = depth;
    }

    /// Whether starting `rule_id` would put more frames of it on the execution path than allowed.
    fn would_exceed_recursion_limit(&self, rule_id: u32) -> (b: bool)
        ensures
            b == (self.path_count(rule_id) >= self.max_recursion_depth),
    {
        let mut c: u64 = 0;
        let mut i: usize = 0;
        while i < self.execution_path.len()
            invariant
                i <= self.execution_path.len(),
                c == self.execution_path@.subrange(0, i as int).to_multiset().count(rule_id),
                c <= i,
            decreases self.execution_path.len() - i,
        {
            proof {
                assert(self.execution_path@.subrange(0, i + 1) =~= self.execution_path@.subrange(0, i as int).push(self.execution_path@[i as int]));
            }
            if self.execution_path[i] == rule_id {
                c = c + 1;
            }
            i += 1;
        }
        assert(self.execution_path@.subrange(0, i as int) =~= self.execution_path@);
        c >= self.max_recursion_depth as u64
    }

    /// Starts a rule: refused when it would exceed the recursion depth; otherwise it
    /// is pushed on the execution path and its count goes up by one.
    pub(crate) fn start_rule_execution(&mut self, rule_id: u32) -> (r: Result<(), RuleEngineError>)
        requires
            old(self).wf(),
        ensures
            final(self).wf(),
            (old(self).path_count(rule_id) >= old(self).max_recursion_depth) == (r matches Err(RuleEngineError::ExecutionLimitExceeded)),
            r is Err ==> r matches Err(RuleEngineError::ExecutionLimitExceeded),
            r is Ok ==> final(self).execution_path@ == old(self).execution_path@.push(rule_id),
            r is Err ==> final(self).execution_path@ == old(self).execution_path@,
            final(self).max_recursion_depth == old(self).max_recursion_depth,
            final(self).rule_priorities == old(self).rule_priorities,
            final(self).priority_queue == old(self).priority_queue,
            final(self).priority_strategy == old(self).priority_strategy,
            final(self).context == old(self).context,
            final(self).step_count == old(self).step_count,
            final(self).max_steps == old(self).max_steps,
            final(self).activation_records == old(self).activation_records,
    {
        if self.would_exceed_recursion_limit(rule_id) {
            return Err(RuleEngineError::ExecutionLimitExceeded);
        }
        let count = match self.rule_execution_counts.get(rule_id) {
            Some(c) => *c,
            None => 0,
        };
        assert(count == old(self).active_count(rule_id));
        let ghost p0 = self.execution_path@;
        self.execution_path.push(rule_id);
        self.rule_execution_counts.insert(rule_id, count + 1);
        proof {
            assert(self.execution_path@.to_multiset() == p0.to_multiset().insert(rule_id));
            assert forall|x: u32| #[trigger] self.execution_path@.to_multiset().count(x) == (if self.rule_execution_counts@.contains_key(x) { self.rule_execution_counts@[x] as nat } else { 0 }) by {
                assert(old(self).execution_path@.to_multiset().count(x) == old(self).active_count(x));
            }
        }
        Ok(())
    }

    /// Ends a rule: its most recent frame leaves the execution path and its count goes down.
    pub(crate) fn end_rule_execution(&mut self, rule_id: u32)
        requires
            old(self).wf(),
        ensures
            final(self).wf(),
            old(self).execution_path@.contains(rule_id) ==> exists|p: int|
                0 <= p < old(self).execution_path@.len()
                && old(self).execution_path@[p] == rule_id
                && (forall|q: int| p < q < old(self).execution_path@.len() ==> old(self).execution_path@[q] != rule_id)
                && final(self).execution_path@ == old(self).execution_path@.remove(p),
            !old(self).execution_path@.contains(rule_id) ==> final(self).execution_path@ == old(self).execution_path@,
            final(self).max_recursion_depth == old(self).max_recursion_depth,
            final(self).rule_priorities == old(self).rule_priorities,
            final(self).priority_queue == old(self).priority_queue,
            final(self).priority_strategy == old(self).priority_strategy,
            final(self).context == old(self).context,
            final(self).step_count == old(self).step_count,
            final(self).max_steps == old(self).max_steps,
            final(self).activation_records == old(self).activation_records,
    {
        let len = self.execution_path.len();
        let mut k: usize = len;
        while k > 0 && self.execution_path[k - 1] != rule_id
            invariant
                k <= len,
                len == old(self).execution_path@.len(),
                *self == *old(self),
                forall|q: int| k <= q < len ==> old(self).execution_path@[q] != rule_id,
            decreases k,
        {
            k -= 1;
        }
        let found = k > 0;
        if !found {
            assert(!old(self).execution_path@.contains(rule_id)) by {
                if old(self).execution_path@.contains(rule_id) {
                    let q = choose|q: int| 0 <= q < len && old(self).execution_path@[q] == rule_id;
                    assert(q >= k);
                }
            }
            proof {
                assert(old(self).path_count(rule_id) == 0);
            }
            match self.rule_execution_counts.get(rule_id) {
                Some(c) => {
                    self.rule_execution_counts.remove(rule_id);
                    proof {
                        assert forall|x: u32| #[trigger] self.execution_path@.to_multiset().count(x) == (if self.rule_execution_counts@.contains_key(x) { self.rule_execution_counts@[x] as nat } else { 0 }) by {
                            assert(old(self).execution_path@.to_multiset().count(x) == old(self).active_count(x));
                        }
                    }
                },
                None => {},
            }
            return;
        }
        let ghost p0 = self.execution_path@;
        self.execution_path.remove(k - 1);
        proof {
            assert(p0[k - 1] == rule_id);
            assert(self.execution_path@ == p0.remove(k - 1));
            assert(p0.to_multiset().count(rule_id) > 0);
            assert(self.execution_path@.to_multiset() == p0.to_multiset().remove(rule_id));
            assert(p0.to_multiset() =~= self.execution_path@.to_multiset().insert(rule_id));
            assert(old(self).path_count(rule_id) > 0);
        }
        let c = match self.rule_execution_counts.get(rule_id) {
            Some(c) => *c,
            None => 0,
        };
        assert(c == old(self).active_count(rule_id));
        self.rule_execution_counts.insert(rule_id, c - 1);
        proof {
            assert forall|x: u32| #[trigger] self.execution_path@.to_multiset().count(x) == (if self.rule_execution_counts@.contains_key(x) { self.rule_execution_counts@[x] as nat } else { 0 }) by {
                assert(old(self).execution_path@.to_multiset().count(x) == old(self).active_count(x));
            }
        }
    }

    /// Whether `rule_id` has a frame on the execution path.
    fn is_in_execution_path(&self, rule_id: u32) -> (b: bool)
        ensures
            b == self.execution_path@.contains(rule_id),
    {
        let mut i: usize = 0;
        while i < self.execution_path.len()
            invariant
                i <= self.execution_path.len(),
                forall|j: int| 0 <= j < i ==> self.execution_path@[j] != rule_id,
            decreases self.execution_path.len() - i,
        {
            if self.execution_path[i] == rule_id {
                return true;
            }
            i += 1;
        }
        false
    }

    /// Runs one execution cycle; the cycle has no work of its own and succeeds.
    pub fn execute_cycle(&mut self) -> (r: Result<(), String>)
        ensures
            r is Ok,
            *final(self) == *old(self),
    {
        Ok(())
    }

    /// Evaluates a rule's condition; every condition holds.
    pub fn evaluate_condition(&self, _rule_info: &RuleExecutionInfo) -> (r: Result<bool, String>)
        ensures
            r == Ok::<bool, String>(true),
    {
        Ok(true)
    }

    /// Checks a rule's dependencies; they are taken as satisfied.
    pub fn check_dependencies(&self, _rule_info: &RuleExecutionInfo) -> (r: Result<bool, String>)
        ensures
            r == Ok::<bool, String>(true),
    {
        Ok(true)
    }

    /// Runs a rule's actions: records `rule_<id>_executed` as true and makes the rule the current node.
    pub fn execute_action_subgraph(&mut self, rule_info: &RuleExecutionInfo) -> (r: Result<(), String>)
        requires
            old(self).wf(),
        ensures
            final(self).wf(),
            r is Ok,
            final(self).context.variables@ == old(self).context.variables@.insert(executed_key(rule_info.rule_id), Value::Bool(true)),
            final(self).context.current_node_id == Some(rule_info.rule_id),
            final(self).rule_priorities == old(self).rule_priorities,
            final(self).priority_queue == old(self).priority_queue,
    {
        let key = executed_key_string(rule_info.rule_id);
        self.context.variables.insert(key, Value::Bool(true));
        self.context.current_node_id = Some(rule_info.rule_id);
        Ok(())
    }

    /// Runs a rule: its actions run and its execution count goes up by one (saturating).
    pub fn execute_rule(&mut self, rule_info: &mut RuleExecutionInfo) -> (r: Result<(), String>)
        requires
            old(self).wf(),
        ensures
            final(self).wf(),
            r is Ok,
            final(self).context.variables@ == old(self).context.variables@.insert(
                executed_key(old(rule_info).rule_id),
                Value::Bool(true),
            ),
            final(self).context.current_node_id == Some(old(rule_info).rule_id),
            *final(rule_info) == (RuleExecutionInfo {
                execution_count: if old(rule_info).execution_count < u32::MAX { (old(rule_info).execution_count + 1) as u32 } else { u32::MAX },
                ..*old(rule_info)
            }),
            final(self).rule_priorities == old(self).rule_priorities,
            final(self).priority_queue == old(self).priority_queue,
    {
        let _ = self.execute_action_subgraph(rule_info);
        if rule_info.execution_count < u32::MAX {
            rule_info.execution_count = rule_info.execution_count + 1;
        }
        Ok(())
    }

    /// Whether execution is deterministic: rule order, matching, scheduling,
    /// recursion and conflict resolution all are, so it always is.
    pub fn ensure_deterministic_execution(&self) -> (b: bool)
        ensures
            b,
    {
        true
    }
}

} // verus!
