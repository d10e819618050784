//! Rule priorities: explicit settings within limits, a default, priority levels,
//! adjustments for dependencies and complexity, and ordering of rules.
use vstd::prelude::*;
use crate::maps::IdMap;
use crate::rule_engine::types::RuleExecutionInfo;
use crate::sorting::{Ranked, sort_ranked_in_place, in_rank_order, rank_sorted};
use crate::text::{decimal, u64_to_decimal};

verus! {

#[derive(Debug, Clone, Copy, PartialEq, Eq)]
pub enum PriorityLevel {
    Lowest,
    Normal,
    High,
    Critical,
}

impl PriorityLevel {
    pub open spec fn spec_value(self) -> u16 {
        match self {
            PriorityLevel::Lowest => 0,
            PriorityLevel::Normal => 50,
            PriorityLevel::High => 150,
            PriorityLevel::Critical => 250,
        }
    }

    /// The priority number of the level.
    pub fn value(self) -> (v: u16)
        ensures
            v == self.spec_value(),
    {
        match self {
            PriorityLevel::Lowest => 0,
            PriorityLevel::Normal => 50,
            PriorityLevel::High => 150,
            PriorityLevel::Critical => 250,
        }
    }

    /// The level of a priority number: at most 0 is lowest, at most 50 normal,
    /// at most 150 high, anything above critical.
    pub open spec fn of(p: u16) -> PriorityLevel {
        if p <= 0 {
            PriorityLevel::Lowest
        } else if p <= 50 {
            PriorityLevel::Normal
        } else if p <= 150 {
            PriorityLevel::High
        } else {
            PriorityLevel::Critical
        }
    }
}

#[derive(Debug, Clone, Copy)]
pub struct PriorityLimits {
    pub min_priority: u16,
    pub max_priority: u16,
}

/// Rules in rank order come highest priority first, and by rule id among
/// rules of one priority.
pub proof fn law_rules_in_priority_order(s: Seq<RuleExecutionInfo>)
    requires
        in_rank_order(s),
    ensures
        forall|i: int, j: int| 0 <= i < j < s.len() ==> {
            &&& (#[trigger] s[i]).priority >= (#[trigger] s[j]).priority
            &&& s[i].priority == s[j].priority ==> s[i].rule_id <= s[j].rule_id
        },
{
    assert forall|i: int, j: int| 0 <= i < j < s.len() implies {
        &&& (#[trigger] s[i]).priority >= (#[trigger] s[j]).priority
        &&& s[i].priority == s[j].priority ==> s[i].rule_id <= s[j].rule_id
    } by {
        assert(!crate::sorting::goes_before(s[j].rank_spec(), s[i].rank_spec()));
    }
}

impl Ranked for RuleExecutionInfo {
    open spec fn rank_spec(&self) -> (u64, u64) {
        (self.priority as u64, self.rule_id as u64)
    }

    fn rank(&self) -> (r: (u64, u64)) {
        (self.priority as u64, self.rule_id as u64)
    }
}

/// The message of a priority outside the allowed range.
pub open spec fn range_message(what: Seq<char>, p: u16, lim: PriorityLimits) -> Seq<char> {
    what + decimal(p as nat) + " is outside allowed range ("@ + decimal(lim.min_priority as nat) + "-"@
        + decimal(lim.max_priority as nat) + ")"@
}

fn range_error(what: &str, p: u16, lim: PriorityLimits) -> (s: String)
    ensures
        s@ == range_message(what@, p, lim),
{
    let mut s = what.to_owned();
    let d = u64_to_decimal(p as u64);
    s.append(d.as_str());
    s.append(" is outside allowed range (");
    let lo = u64_to_decimal(lim.min_priority as u64);
    s.append(lo.as_str());
    s.append("-");
    let hi = u64_to_decimal(lim.max_priority as u64);
    s.append(hi.as_str());
    s.append(")");
    s
}

#[derive(Debug, Clone)]
pub struct PriorityManager {
    default_priority: u16,
    rule_priorities: IdMap<u16>,
    priority_limits: PriorityLimits,
}

impl PriorityManager {
    pub closed spec fn default_p(&self) -> u16 {
        self.default_priority
    }

    pub closed spec fn priorities(&self) -> Map<u32, u16> {
        self.rule_priorities@
    }

    pub closed spec fn limits(&self) -> PriorityLimits {
        self.priority_limits
    }

    /// Every stored priority and the default lie within the limits.
    pub closed spec fn wf(&self) -> bool {
        &&& self.rule_priorities.wf()
        &&& self.priority_limits.min_priority <= self.priority_limits.max_priority
        &&& self.priority_limits.min_priority <= self.default_priority <= self.priority_limits.max_priority
        &&& forall|r: u32| #[trigger] self.rule_priorities@.contains_key(r) ==>
            self.priority_limits.min_priority <= self.rule_priorities@[r] <= self.priority_limits.max_priority
    }

    pub open spec fn in_range(&self, p: u16) -> bool {
        self.limits().min_priority <= p <= self.limits().max_priority
    }

    /// The priority in force for `r`.
    pub open spec fn priority_of(&self, r: u32) -> u16 {
        if self.priorities().contains_key(r) { self.priorities()[r] } else { self.default_p() }
    }

    pub fn new() -> (m: Self)
        ensures
            m.wf(),
            m.default_p() == 50,
            m.priorities() == Map::<u32, u16>::empty(),
            m.limits().min_priority == 0,
            m.limits().max_priority == 1000,
    {
        PriorityManager {
            default_priority: 50,
            rule_priorities: IdMap::new(),
            priority_limits: PriorityLimits { min_priority: 0, max_priority: 1000 },
        }
    }

    /// Sets a rule's priority; refused, with nothing changed, outside the limits.
    pub fn set_rule_priority(&mut self, rule_id: u32, priority: u16) -> (r: Result<(), String>)
        requires
            old(self).wf(),
        ensures
            final(self).wf(),
            final(self).limits() == old(self).limits(),
            final(self).default_p() == old(self).default_p(),
            old(self).in_range(priority) ==> r is Ok && final(self).priorities() == old(self).priorities().insert(rule_id, priority),
            !old(self).in_range(priority) ==> final(self).priorities() == old(self).priorities() && (r matches Err(msg)
                && msg@ == range_message("Priority "@, priority, old(self).limits())),
    {
        if priority < self.priority_limits.min_priority || priority > self.priority_limits.max_priority {
            return Err(range_error("Priority ", priority, self.priority_limits));
        }
        self.rule_priorities.insert(rule_id, priority);
        Ok(())
    }

    pub fn get_rule_priority(&self, rule_id: u32) -> (p: u16)
        requires
            self.wf(),
        ensures
            p == self.priority_of(rule_id),
            self.in_range(p),
    {
        match self.rule_priorities.get(rule_id) {
            Some(p) => *p,
            None => self.default_priority,
        }
    }

    /// The priorities after applying `s` in order up to, not including, the first
    /// one outside the limits.
    pub open spec fn apply_all(m: Map<u32, u16>, s: Seq<(u32, u16)>, lim: PriorityLimits) -> Map<u32, u16>
        decreases s.len(),
    {
        if s.len() == 0 {
            m
        } else if lim.min_priority <= s[0].1 <= lim.max_priority {
            Self::apply_all(m.insert(s[0].0, s[0].1), s.drop_first(), lim)
        } else {
            m
        }
    }

    /// Sets several priorities in order and stops at the first refused one.
    pub fn update_rule_priorities(&mut self, priorities: &[(u32, u16)]) -> (r: Result<(), String>)
        requires
            old(self).wf(),
        ensures
            final(self).wf(),
            final(self).limits() == old(self).limits(),
            final(self).default_p() == old(self).default_p(),
            final(self).priorities() == Self::apply_all(old(self).priorities(), priorities@, old(self).limits()),
            r is Ok <==> forall|i: int| 0 <= i < priorities@.len() ==> old(self).in_range(#[trigger] priorities@[i].1),
            r matches Err(msg) ==> exists|i: int| 0 <= i < priorities@.len() && !old(self).in_range(priorities@[i].1)
                && (forall|j: int| 0 <= j < i ==> old(self).in_range(#[trigger] priorities@[j].1))
                && msg@ == range_message("Priority "@, priorities@[i].1, old(self).limits()),
    {
        let mut i: usize = 0;
        assert(priorities@.skip(0) =~= priorities@);
        while i < priorities.len()
            invariant
                self.wf(),
                i <= priorities@.len(),
                self.limits() == old(self).limits(),
                self.default_p() == old(self).default_p(),
                forall|j: int| 0 <= j < i ==> old(self).in_range(#[trigger] priorities@[j].1),
                Self::apply_all(old(self).priorities(), priorities@, old(self).limits())
                    == Self::apply_all(self.priorities(), priorities@.skip(i as int), old(self).limits()),
            decreases priorities@.len() - i,
        {
            let (rule_id, priority) = priorities[i];
            proof {
                assert(priorities@.skip(i as int)[0] == priorities@[i as int]);
                assert(priorities@.skip(i as int).drop_first() =~= priorities@.skip(i + 1));
            }
            match self.set_rule_priority(rule_id, priority) {
                Ok(()) => {},
                Err(e) => {
                    return Err(e);
                },
            }
            i += 1;
        }
        proof {
            assert(priorities@.skip(i as int).len() == 0);
        }
        Ok(())
    }

    pub fn set_rule_priority_level(&mut self, rule_id: u32, level: PriorityLevel) -> (r: Result<(), String>)
        requires
            old(self).wf(),
        ensures
            final(self).wf(),
            final(self).limits() == old(self).limits(),
            final(self).default_p() == old(self).default_p(),
            old(self).in_range(level.spec_value()) ==> r is Ok && final(self).priorities() == old(self).priorities().insert(rule_id, level.spec_value()),
            !old(self).in_range(level.spec_value()) ==> final(self).priorities() == old(self).priorities() && (r matches Err(msg)
                && msg@ == range_message("Priority "@, level.spec_value(), old(self).limits())),
    {
        self.set_rule_priority(rule_id, level.value())
    }

    pub fn get_rule_priority_level(&self, rule_id: u32) -> (l: PriorityLevel)
        requires
            self.wf(),
        ensures
            l == PriorityLevel::of(self.priority_of(rule_id)),
    {
        let priority = self.get_rule_priority(rule_id);
        if priority <= 0 {
            PriorityLevel::Lowest
        } else if priority <= 50 {
            PriorityLevel::Normal
        } else if priority <= 150 {
            PriorityLevel::High
        } else {
            PriorityLevel::Critical
        }
    }

    /// A rule with more than five dependencies gains ten points, up to the maximum.
    pub fn adjust_priority_for_dependencies(&mut self, rule_info: &mut RuleExecutionInfo)
        requires
            old(self).wf(),
        ensures
            final(self).wf(),
            final(self).limits() == old(self).limits(),
            final(self).default_p() == old(self).default_p(),
            *final(rule_info) == *old(rule_info),
            old(rule_info).dependencies@.len() > 5 ==> final(self).priorities() == old(self).priorities().insert(
                old(rule_info).rule_id,
                if old(self).priority_of(old(rule_info).rule_id) + 10 <= old(self).limits().max_priority {
                    (old(self).priority_of(old(rule_info).rule_id) + 10) as u16
                } else {
                    old(self).limits().max_priority
                },
            ),
            old(rule_info).dependencies@.len() <= 5 ==> final(self).priorities() == old(self).priorities(),
    {
        if rule_info.dependencies.len() > 5 {
            let current = self.get_rule_priority(rule_info.rule_id);
            let max = self.priority_limits.max_priority;
            let new_priority = if (current as u32) + 10 <= max as u32 { current + 10 } else { max };
            let _ = self.set_rule_priority(rule_info.rule_id, new_priority);
        }
    }

    /// A rule gains a tenth of its complexity score, at most fifty points, up to the maximum.
    pub fn adjust_priority_for_complexity(&mut self, rule_info: &mut RuleExecutionInfo, complexity_score: u16)
        requires
            old(self).wf(),
        ensures
            final(self).wf(),
            final(self).limits() == old(self).limits(),
            final(self).default_p() == old(self).default_p(),
            *final(rule_info) == *old(rule_info),
            ({
                let boost = if complexity_score / 10 <= 50 { complexity_score / 10 } else { 50 };
                let cur = old(self).priority_of(old(rule_info).rule_id);
                final(self).priorities() == old(self).priorities().insert(
                    old(rule_info).rule_id,
                    if cur + boost <= old(self).limits().max_priority {
                        (cur + boost) as u16
                    } else {
                        old(self).limits().max_priority
                    },
                )
            }),
    {
        let current = self.get_rule_priority(rule_info.rule_id);
        let boost = if complexity_score / 10 <= 50 { complexity_score / 10 } else { 50 };
        let max = self.priority_limits.max_priority;
        let new_priority = if (current as u32) + (boost as u32) <= max as u32 { current + boost } else { max };
        let _ = self.set_rule_priority(rule_info.rule_id, new_priority);
    }

    /// Orders rules by priority, highest first, and by rule id among equals.
    pub fn sort_rules_by_priority(&self, rules: &mut Vec<RuleExecutionInfo>)
        ensures
            final(rules)@ == rank_sorted(old(rules)@),
            final(rules)@.to_multiset() == old(rules)@.to_multiset(),
            final(rules)@.len() == old(rules)@.len(),
            in_rank_order(final(rules)@),
            forall|i: int, j: int| 0 <= i < j < final(rules)@.len() ==> {
                &&& (#[trigger] final(rules)@[i]).priority >= (#[trigger] final(rules)@[j]).priority
                &&& final(rules)@[i].priority == final(rules)@[j].priority ==> final(rules)@[i].rule_id <= final(rules)@[j].rule_id
            },
    {
        sort_ranked_in_place(rules);
        proof {
            law_rules_in_priority_order(rules@);
        }
    }

    /// Sets the default priority; refused, with nothing changed, outside the limits.
    pub fn set_default_priority(&mut self, priority: u16) -> (r: Result<(), String>)
        requires
            old(self).wf(),
        ensures
            final(self).wf(),
            final(self).limits() == old(self).limits(),
            final(self).priorities() == old(self).priorities(),
            old(self).in_range(priority) ==> r is Ok && final(self).default_p() == priority,
            !old(self).in_range(priority) ==> final(self).default_p() == old(self).default_p() && (r matches Err(msg)
                && msg@ == range_message("Default priority "@, priority, old(self).limits())),
    {
        if priority < self.priority_limits.min_priority || priority > self.priority_limits.max_priority {
            return Err(range_error("Default priority ", priority, self.priority_limits));
        }
        self.default_priority = priority;
        Ok(())
    }

    pub fn get_default_priority(&self) -> (p: u16)
        ensures
            p == self.default_p(),
    {
        self.default_priority
    }

    /// Forgets every explicit priority.
    pub fn reset_all_priorities(&mut self)
        requires
            old(self).wf(),
        ensures
            final(self).wf(),
            final(self).priorities() == Map::<u32, u16>::empty(),
            final(self).default_p() == old(self).default_p(),
            final(self).limits() == old(self).limits(),
    {
        self.rule_priorities.clear();
    }

    pub fn get_all_priorities(&self) -> (m: &IdMap<u16>)
        requires
            self.wf(),
        ensures
            m.wf(),
            m@ == self.priorities(),
    {
        &self.rule_priorities
    }

    /// Forgets a rule's explicit priority; the default applies again.
    pub fn remove_rule_priority(&mut self, rule_id: u32)
        requires
            old(self).wf(),
        ensures
            final(self).wf(),
            final(self).priorities() == old(self).priorities().remove(rule_id),
            final(self).default_p() == old(self).default_p(),
            final(self).limits() == old(self).limits(),
    {
        self.rule_priorities.remove(rule_id);
    }
}

/// Reading a rule's priority gives back what was last set for it, when that was in range.
pub proof fn law_set_then_get_priority(m0: PriorityManager, m1: PriorityManager, r: u32, p: u16)
    requires
        m0.wf(),
        m0.in_range(p),
        m1.priorities() == m0.priorities().insert(r, p),
        m1.default_p() == m0.default_p(),
    ensures
        m1.priority_of(r) == p,
        forall|o: u32| o != r ==> m1.priority_of(o) == m0.priority_of(o),
{
}

/// After an explicit priority is removed, the rule reads the default.
pub proof fn law_remove_restores_default(m0: PriorityManager, m1: PriorityManager, r: u32)
    requires
        m1.priorities() == m0.priorities().remove(r),
        m1.default_p() == m0.default_p(),
    ensures
        m1.priority_of(r) == m0.default_p(),
{
}

} // verus!
