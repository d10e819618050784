//! The queue of rules ready to run, in priority order.
use vstd::prelude::*;
use crate::maps::IdMap;
use crate::rule_engine::engine::{RuleEngine, executed_key, executed_key_string};
use crate::rule_engine::types::RuleExecutionInfo;
use crate::sorting::{Ranked, in_rank_order, rank_sorted, sort_ranked, sort_ranked_in_place};
use crate::text::{decimal, u64_to_decimal};

verus! {

#[derive(Debug, Clone)]
pub struct RuleQueueEntry {
    pub rule_info: RuleExecutionInfo,
    /// order of scheduling, for ties
    pub execution_order: u32,
}

impl Ranked for RuleQueueEntry {
    open spec fn rank_spec(&self) -> (u64, u64) {
        (self.rule_info.priority as u64, self.execution_order as u64)
    }

    fn rank(&self) -> (r: (u64, u64)) {
        (self.rule_info.priority as u64, self.execution_order as u64)
    }
}

/// Whether every dependency of the rule has run, as the engine's variables record.
pub open spec fn dependencies_done(info: RuleExecutionInfo, engine: RuleEngine) -> bool {
    forall|i: int| 0 <= i < info.dependencies@.len() ==> engine.context.variables@.contains_key(executed_key(#[trigger] info.dependencies@[i]))
}

pub open spec fn limit_message(id: u32) -> Seq<char> {
    "Recursion limit exceeded for rule "@ + decimal(id as nat)
}

/// A queue in rank order runs higher priorities first: no entry comes
/// before one of strictly higher rule priority, and of two entries of one
/// priority the one scheduled first comes first.
pub proof fn law_queue_runs_higher_priority_first(q: Seq<RuleQueueEntry>)
    requires
        in_rank_order(q),
    ensures
        forall|i: int, j: int| 0 <= i < j < q.len() ==> {
            &&& (#[trigger] q[i]).rule_info.priority >= (#[trigger] q[j]).rule_info.priority
            &&& q[i].rule_info.priority == q[j].rule_info.priority ==> q[i].execution_order <= q[j].execution_order
        },
{
    assert forall|i: int, j: int| 0 <= i < j < q.len() implies {
        &&& (#[trigger] q[i]).rule_info.priority >= (#[trigger] q[j]).rule_info.priority
        &&& q[i].rule_info.priority == q[j].rule_info.priority ==> q[i].execution_order <= q[j].execution_order
    } by {
        assert(!crate::sorting::goes_before(q[j].rank_spec(), q[i].rank_spec()));
    }
}

pub struct RuleScheduler {
    pub execution_queue: Vec<RuleQueueEntry>,
    pub scheduled_rules: IdMap<RuleExecutionInfo>,
    pub execution_order_counter: u32,
}

impl RuleScheduler {
    pub open spec fn wf(&self) -> bool {
        self.scheduled_rules.wf()
    }

    pub fn new() -> (s: Self)
        ensures
            s.wf(),
            s.execution_queue@ == Seq::<RuleQueueEntry>::empty(),
            s.scheduled_rules@ == Map::<u32, RuleExecutionInfo>::empty(),
            s.execution_order_counter == 0,
    {
        RuleScheduler { execution_queue: Vec::new(), scheduled_rules: IdMap::new(), execution_order_counter: 0 }
    }

    /// Queues a rule whose dependencies have all run: `Ok(false)` and no change when
    /// some has not; an error when the rule has reached its recursion limit.
    pub fn schedule_rule(&mut self, rule_info: RuleExecutionInfo, rule_engine: &RuleEngine) -> (r: Result<bool, String>)
        requires
            old(self).wf(),
            rule_engine.wf(),
            old(self).execution_order_counter < u32::MAX,
        ensures
            final(self).wf(),
            final(self).scheduled_rules == old(self).scheduled_rules,
            !dependencies_done(rule_info, *rule_engine) ==> r == Ok::<bool, String>(false) && *final(self) == *old(self),
            dependencies_done(rule_info, *rule_engine) && rule_info.execution_count >= rule_info.recursion_limit ==>
                *final(self) == *old(self) && (r matches Err(msg) && msg@ == limit_message(rule_info.rule_id)),
            dependencies_done(rule_info, *rule_engine) && rule_info.execution_count < rule_info.recursion_limit ==>
                r == Ok::<bool, String>(true)
                && final(self).execution_queue@ == old(self).execution_queue@.push(RuleQueueEntry { rule_info, execution_order: old(self).execution_order_counter })
                && final(self).execution_order_counter == old(self).execution_order_counter + 1,
    {
        if !self.check_dependencies(&rule_info, rule_engine) {
            return Ok(false);
        }
        if rule_info.execution_count >= rule_info.recursion_limit {
            let d = u64_to_decimal(rule_info.rule_id as u64);
            let mut msg = "Recursion limit exceeded for rule ".to_owned();
            msg.append(d.as_str());
            return Err(msg);
        }
        let entry = RuleQueueEntry { rule_info, execution_order: self.execution_order_counter };
        self.execution_queue.push(entry);
        self.execution_order_counter = self.execution_order_counter + 1;
        Ok(true)
    }

    fn check_dependencies(&self, rule_info: &RuleExecutionInfo, rule_engine: &RuleEngine) -> (b: bool)
        requires
            rule_engine.wf(),
        ensures
            b == dependencies_done(*rule_info, *rule_engine),
    {
        let mut i: usize = 0;
        while i < rule_info.dependencies.len()
            invariant
                rule_engine.wf(),
                i <= rule_info.dependencies.len(),
                forall|j: int| 0 <= j < i ==> rule_engine.context.variables@.contains_key(executed_key(#[trigger] rule_info.dependencies@[j])),
            decreases rule_info.dependencies.len() - i,
        {
            if !self.is_dependency_satisfied(rule_info.dependencies[i], rule_engine) {
                return false;
            }
            i += 1;
        }
        true
    }

    fn is_dependency_satisfied(&self, dep_id: u32, rule_engine: &RuleEngine) -> (b: bool)
        requires
            rule_engine.wf(),
        ensures
            b == rule_engine.context.variables@.contains_key(executed_key(dep_id)),
    {
        let key = executed_key_string(dep_id);
        rule_engine.context.variables.contains_key(key.as_str())
    }

    /// Queues the rules in priority order, highest first and by id among equals,
    /// skipping those that reached their limit or whose dependencies have not run.
    pub fn schedule_rules(&mut self, rules: Vec<RuleExecutionInfo>, rule_engine: &RuleEngine) -> (r: Result<(), String>)
        requires
            old(self).wf(),
            rule_engine.wf(),
            old(self).execution_order_counter + rules@.len() < u32::MAX,
        ensures
            final(self).wf(),
            r is Ok,
            final(self).scheduled_rules == old(self).scheduled_rules,
            final(self).execution_queue@ == old(self).execution_queue@ + queued(rank_sorted(rules@), *rule_engine, old(self).execution_order_counter),
            rank_sorted(rules@).to_multiset() == rules@.to_multiset(),
            rank_sorted(rules@).len() == rules@.len(),
            in_rank_order(rank_sorted(rules@)),
    {
        let sorted = sort_ranked(rules);
        let ghost order = sorted@;
        let mut i: usize = 0;
        let ghost q0 = self.execution_queue@;
        let ghost c0 = self.execution_order_counter;
        let mut src = sorted;
        proof {
            assert(order.subrange(0, 0) =~= Seq::<RuleExecutionInfo>::empty());
            assert(self.execution_queue@ =~= q0 + queued(order.subrange(0, 0), *rule_engine, c0));
        }
        while src.len() > 0
            invariant
                self.wf(),
                rule_engine.wf(),
                order.len() <= usize::MAX,
                i + src@.len() == order.len(),
                src@ == order.skip(i as int),
                self.scheduled_rules == old(self).scheduled_rules,
                self.execution_queue@ == q0 + queued(order.subrange(0, i as int), *rule_engine, c0),
                self.execution_order_counter == c0 + queued(order.subrange(0, i as int), *rule_engine, c0).len(),
                queued(order.subrange(0, i as int), *rule_engine, c0).len() <= i,
                c0 + order.len() < u32::MAX,
            decreases src.len(),
        {
            let info = src.remove(0);
            proof {
                assert(order.subrange(0, i + 1).drop_last() =~= order.subrange(0, i as int));
                assert(order.subrange(0, i + 1).last() == info);
            }
            if info.execution_count < info.recursion_limit {
                let _ = self.schedule_rule(info, rule_engine);
            }
            proof {
                assert(self.execution_queue@ =~= q0 + queued(order.subrange(0, i + 1), *rule_engine, c0));
            }
            i += 1;
        }
        proof {
            assert(order.subrange(0, i as int) =~= order);
        }
        Ok(())
    }

    /// Runs the rule at the head of the queue and records it as scheduled;
    /// `Ok(false)` when the queue is empty.
    pub fn execute_next_rule(&mut self, rule_engine: &mut RuleEngine) -> (r: Result<bool, String>)
        requires
            old(self).wf(),
            old(rule_engine).wf(),
        ensures
            final(self).wf(),
            final(rule_engine).wf(),
            old(self).execution_queue@.len() == 0 ==> r == Ok::<bool, String>(false) && *final(self) == *old(self),
            old(self).execution_queue@.len() > 0 ==> r == Ok::<bool, String>(true)
                && final(self).execution_queue@ == old(self).execution_queue@.drop_first()
                && final(self).scheduled_rules@.contains_key(old(self).execution_queue@[0].rule_info.rule_id)
                && final(rule_engine).context.variables@.contains_key(executed_key(old(self).execution_queue@[0].rule_info.rule_id)),
    {
        if self.execution_queue.len() == 0 {
            return Ok(false);
        }
        let entry = self.execution_queue.remove(0);
        let mut rule_info = entry.rule_info;
        let _ = rule_engine.execute_rule(&mut rule_info);
        let id = rule_info.rule_id;
        self.scheduled_rules.insert(id, rule_info);
        Ok(true)
    }

    /// Runs queued rules until the queue is empty.
    pub fn execute_all_scheduled(&mut self, rule_engine: &mut RuleEngine) -> (r: Result<(), String>)
        requires
            old(self).wf(),
            old(rule_engine).wf(),
        ensures
            final(self).wf(),
            final(rule_engine).wf(),
            r is Ok,
            final(self).execution_queue@.len() == 0,
    {
        while self.execution_queue.len() > 0
            invariant
                self.wf(),
                rule_engine.wf(),
            decreases self.execution_queue@.len(),
        {
            let _ = self.execute_next_rule(rule_engine);
        }
        Ok(())
    }

    pub fn scheduled_count(&self) -> (n: usize)
        ensures
            n == self.execution_queue@.len(),
    {
        self.execution_queue.len()
    }

    pub fn is_empty(&self) -> (b: bool)
        ensures
            b == (self.execution_queue@.len() == 0),
    {
        self.execution_queue.len() == 0
    }

    pub fn clear_queue(&mut self)
        ensures
            final(self).execution_queue@ == Seq::<RuleQueueEntry>::empty(),
            final(self).scheduled_rules == old(self).scheduled_rules,
            final(self).execution_order_counter == old(self).execution_order_counter,
    {
        self.execution_queue.clear();
    }

    /// Orders the queue by priority, highest first, then by order of scheduling.
    pub fn sort_queue(&mut self)
        ensures
            final(self).execution_queue@.to_multiset() == old(self).execution_queue@.to_multiset(),
            final(self).execution_queue@.len() == old(self).execution_queue@.len(),
            in_rank_order(final(self).execution_queue@),
            forall|i: int, j: int| 0 <= i < j < final(self).execution_queue@.len() ==> {
                &&& (#[trigger] final(self).execution_queue@[i]).rule_info.priority
                    >= (#[trigger] final(self).execution_queue@[j]).rule_info.priority
                &&& final(self).execution_queue@[i].rule_info.priority == final(self).execution_queue@[j].rule_info.priority
                    ==> final(self).execution_queue@[i].execution_order <= final(self).execution_queue@[j].execution_order
            },
            final(self).scheduled_rules == old(self).scheduled_rules,
            final(self).execution_order_counter == old(self).execution_order_counter,
    {
        sort_ranked_in_place(&mut self.execution_queue);
        proof {
            law_queue_runs_higher_priority_first(self.execution_queue@);
        }
    }
}

/// The entries queued for rules taken in the given order, those at their limit or
/// with dependencies not yet run left out, numbered on from `counter`.
pub open spec fn queued(order: Seq<RuleExecutionInfo>, engine: RuleEngine, counter: u32) -> Seq<RuleQueueEntry>
    decreases order.len(),
{
    if order.len() == 0 {
        Seq::empty()
    } else {
        let before = queued(order.drop_last(), engine, counter);
        let info = order.last();
        if info.execution_count < info.recursion_limit && dependencies_done(info, engine) {
            before.push(RuleQueueEntry { rule_info: info, execution_order: (counter + before.len()) as u32 })
        } else {
            before
        }
    }
}

} // verus!
