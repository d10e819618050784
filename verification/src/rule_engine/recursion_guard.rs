//! Guards rule execution against runaway recursion: per-rule execution limits,
//! a bound on the call stack depth, and refusal of unbounded self-recursion.
use vstd::prelude::*;
use crate::maps::IdMap;

verus! {

#[derive(Debug, Clone, PartialEq, Eq)]
pub enum RecursionError {
    /// rule id, executions counted so far
    LimitExceeded(u32, u32),
    StackOverflow,
    DirectRecursion(u32),
    IndirectRecursion(Vec<u32>),
}

/// What a start of `rule_id` answers in a given guard state.
pub enum StartVerdict {
    Allowed,
    Direct,
    Overflow,
    Limit(u32),
}

pub struct RecursionGuard {
    active_rules: Vec<u32>,
    execution_counts: IdMap<u32>,
    recursion_limits: IdMap<u32>,
    call_stack: Vec<u32>,
    max_call_depth: u32,
    default_recursion_limit: u32,
}

impl RecursionGuard {
    pub closed spec fn active(&self) -> Set<u32> {
        self.active_rules@.to_set()
    }

    pub closed spec fn counts(&self) -> Map<u32, u32> {
        self.execution_counts@
    }

    pub closed spec fn limits(&self) -> Map<u32, u32> {
        self.recursion_limits@
    }

    pub closed spec fn stack(&self) -> Seq<u32> {
        self.call_stack@
    }

    pub closed spec fn max_depth(&self) -> u32 {
        self.max_call_depth
    }

    pub closed spec fn default_limit(&self) -> u32 {
        self.default_recursion_limit
    }

    pub closed spec fn wf(&self) -> bool {
        &&& self.active_rules@.no_duplicates()
        &&& self.execution_counts.wf()
        &&& self.recursion_limits.wf()
        &&& self.call_stack@.len() <= u32::MAX
    }

    /// Executions of `r` counted so far.
    pub open spec fn count_of(&self, r: u32) -> u32 {
        if self.counts().contains_key(r) { self.counts()[r] } else { 0 }
    }

    /// The limit that applies to `r`: its own, else the default.
    pub open spec fn limit_of(&self, r: u32) -> u32 {
        if self.limits().contains_key(r) { self.limits()[r] } else { self.default_limit() }
    }

    /// The answer to a request to start `r`, checked in this order: a rule without a
    /// limit of its own may not re-enter itself; the stack may not grow past the
    /// maximum depth; the rule may not run once its count has reached its limit.
    pub open spec fn verdict(&self, r: u32) -> StartVerdict {
        if self.active().contains(r) && !self.limits().contains_key(r) {
            StartVerdict::Direct
        } else if self.stack().len() >= self.max_depth() {
            StartVerdict::Overflow
        } else if self.count_of(r) >= self.limit_of(r) {
            StartVerdict::Limit(self.count_of(r))
        } else {
            StartVerdict::Allowed
        }
    }

    pub open spec fn verdict_result(&self, r: u32) -> Result<(), RecursionError> {
        match self.verdict(r) {
            StartVerdict::Allowed => Ok(()),
            StartVerdict::Direct => Err(RecursionError::DirectRecursion(r)),
            StartVerdict::Overflow => Err(RecursionError::StackOverflow),
            StartVerdict::Limit(c) => Err(RecursionError::LimitExceeded(r, c)),
        }
    }

    /// The cycle that a call of `r` would close: the stack from the first frame of
    /// `r` on, then `r` again; none when `r` is not on the stack.
    pub open spec fn cycle_of(stack: Seq<u32>, r: u32) -> Option<Seq<u32>> {
        if stack.contains(r) {
            let first = choose|i: int| 0 <= i < stack.len() && stack[i] == r && forall|j: int| 0 <= j < i ==> stack[j] != r;
            Some(stack.subrange(first, stack.len() as int).push(r))
        } else {
            None
        }
    }

    pub fn new() -> (g: Self)
        ensures
            g.wf(),
            g.active() == Set::<u32>::empty(),
            g.counts() == Map::<u32, u32>::empty(),
            g.limits() == Map::<u32, u32>::empty(),
            g.stack() == Seq::<u32>::empty(),
            g.max_depth() == 100,
            g.default_limit() == 10,
    {
        let g = RecursionGuard {
            active_rules: Vec::new(),
            execution_counts: IdMap::new(),
            recursion_limits: IdMap::new(),
            call_stack: Vec::new(),
            max_call_depth: 100,
            default_recursion_limit: 10,
        };
        assert(g.active() =~= Set::<u32>::empty());
        g
    }

    fn active_position(&self, rule_id: u32) -> (r: Option<usize>)
        requires
            self.wf(),
        ensures
            match r {
                Some(i) => i < self.active_rules@.len() && self.active_rules@[i as int] == rule_id,
                None => !self.active().contains(rule_id),
            },
    {
        let mut i: usize = 0;
        while i < self.active_rules.len()
            invariant
                i <= self.active_rules.len(),
                forall|j: int| 0 <= j < i ==> self.active_rules@[j] != rule_id,
            decreases self.active_rules.len() - i,
        {
            if self.active_rules[i] == rule_id {
                return Some(i);
            }
            i += 1;
        }
        None
    }

    /// Checks whether `rule_id` may start now, without changing anything.
    pub fn can_execute_rule(&self, rule_id: u32) -> (r: Result<(), RecursionError>)
        requires
            self.wf(),
        ensures
            r == self.verdict_result(rule_id),
    {
        if self.active_position(rule_id).is_some() && !self.recursion_limits.contains_key(rule_id) {
            return Err(RecursionError::DirectRecursion(rule_id));
        }
        if self.call_stack.len() >= self.max_call_depth as usize {
            return Err(RecursionError::StackOverflow);
        }
        let current_count = self.get_execution_count(rule_id);
        let limit = self.get_recursion_limit(rule_id);
        if current_count >= limit {
            return Err(RecursionError::LimitExceeded(rule_id, current_count));
        }
        Ok(())
    }

    /// Starts a rule: on success it becomes active, is pushed on the call stack and
    /// its execution count goes up by one; on refusal nothing changes.
    pub fn start_rule_execution(&mut self, rule_id: u32) -> (r: Result<(), RecursionError>)
        requires
            old(self).wf(),
        ensures
            final(self).wf(),
            r == old(self).verdict_result(rule_id),
            r is Ok ==> {
                &&& final(self).active() == old(self).active().insert(rule_id)
                &&& final(self).stack() == old(self).stack().push(rule_id)
                &&& final(self).counts() == old(self).counts().insert(rule_id, (old(self).count_of(rule_id) + 1) as u32)
                &&& final(self).limits() == old(self).limits()
                &&& final(self).max_depth() == old(self).max_depth()
                &&& final(self).default_limit() == old(self).default_limit()
            },
            r is Err ==> *final(self) == *old(self),
    {
        match self.can_execute_rule(rule_id) {
            Err(e) => {
                return Err(e);
            },
            Ok(()) => {},
        }
        match self.active_position(rule_id) {
            None => {
                self.active_rules.push(rule_id);
                proof {
                    let o = old(self).active_rules@;
                    let s = self.active_rules@;
                    assert(!o.contains(rule_id));
                    assert(s.no_duplicates());
                    assert forall|x: u32| s.contains(x) == (o.contains(x) || x == rule_id) by {
                        if o.contains(x) {
                            let j = choose|j: int| 0 <= j < o.len() && o[j] == x;
                            assert(s[j] == x);
                        }
                        if x == rule_id {
                            assert(s[o.len() as int] == x);
                        }
                        if s.contains(x) {
                            let j = choose|j: int| 0 <= j < s.len() && s[j] == x;
                            if j < o.len() {
                                assert(o[j] == x);
                            }
                        }
                    }
                    assert(self.active() =~= old(self).active().insert(rule_id));
                }
            },
            Some(i) => {
                proof {
                    assert(old(self).active_rules@.contains(rule_id));
                    assert(self.active() =~= old(self).active().insert(rule_id));
                }
            },
        }
        self.call_stack.push(rule_id);
        let count = self.get_execution_count(rule_id);
        self.execution_counts.insert(rule_id, count + 1);
        Ok(())
    }

    /// Ends a rule: it is no longer active and its most recent frame leaves the stack.
    pub fn end_rule_execution(&mut self, rule_id: u32)
        requires
            old(self).wf(),
        ensures
            final(self).wf(),
            final(self).active() == old(self).active().remove(rule_id),
            old(self).stack().contains(rule_id) ==> exists|p: int|
                0 <= p < old(self).stack().len()
                && old(self).stack()[p] == rule_id
                && (forall|q: int| p < q < old(self).stack().len() ==> old(self).stack()[q] != rule_id)
                && final(self).stack() == old(self).stack().remove(p),
            !old(self).stack().contains(rule_id) ==> final(self).stack() == old(self).stack(),
            final(self).counts() == old(self).counts(),
            final(self).limits() == old(self).limits(),
            final(self).max_depth() == old(self).max_depth(),
            final(self).default_limit() == old(self).default_limit(),
    {
        match self.active_position(rule_id) {
            Some(i) => {
                let ghost before = self.active_rules@;
                self.active_rules.remove(i);
                proof {
                    let s = self.active_rules@;
                    assert(s =~= before.remove(i as int));
                    assert forall|a: int, b: int| 0 <= a < s.len() && 0 <= b < s.len() && a != b implies s[a] != s[b] by {
                        let a2 = if a < i { a } else { a + 1 };
                        let b2 = if b < i { b } else { b + 1 };
                        assert(s[a] == before[a2] && s[b] == before[b2]);
                    }
                    assert forall|x: u32| s.contains(x) <==> before.contains(x) && x != rule_id by {
                        if s.contains(x) {
                            let j = choose|j: int| 0 <= j < s.len() && s[j] == x;
                            let j2 = if j < i { j } else { j + 1 };
                            assert(before[j2] == x);
                        }
                        if before.contains(x) && x != rule_id {
                            let j = choose|j: int| 0 <= j < before.len() && before[j] == x;
                            let j2 = if j < i { j } else { j - 1 };
                            assert(s[j2] == x);
                        }
                    }
                    assert(self.active() =~= old(self).active().remove(rule_id));
                }
            },
            None => {
                assert(self.active() =~= old(self).active().remove(rule_id));
            },
        }
        let len = self.call_stack.len();
        let mut k: usize = len;
        let ghost act = self.active_rules@;
        while k > 0
            invariant
                self.active_rules@ == act,
                act.no_duplicates(),
                act.to_set() == old(self).active().remove(rule_id),
                self.execution_counts == old(self).execution_counts,
                self.recursion_limits == old(self).recursion_limits,
                self.max_call_depth == old(self).max_call_depth,
                self.default_recursion_limit == old(self).default_recursion_limit,
                old(self).wf(),
                k <= len,
                len == self.call_stack@.len(),
                self.call_stack@ == old(self).call_stack@,
                forall|q: int| k <= q < len ==> self.call_stack@[q] != rule_id,
            decreases k,
        {
            if self.call_stack[k - 1] == rule_id {
                self.call_stack.remove(k - 1);
                assert(old(self).stack()[k - 1] == rule_id);
                return;
            }
            k -= 1;
        }
    }

    pub fn set_recursion_limit(&mut self, rule_id: u32, limit: u32)
        requires
            old(self).wf(),
        ensures
            final(self).wf(),
            final(self).limits() == old(self).limits().insert(rule_id, limit),
            final(self).counts() == old(self).counts().insert(rule_id, 0),
            final(self).active() == old(self).active(),
            final(self).stack() == old(self).stack(),
            final(self).max_depth() == old(self).max_depth(),
            final(self).default_limit() == old(self).default_limit(),
    {
        self.recursion_limits.insert(rule_id, limit);
        self.execution_counts.insert(rule_id, 0);
    }

    pub fn get_recursion_limit(&self, rule_id: u32) -> (l: u32)
        requires
            self.wf(),
        ensures
            l == self.limit_of(rule_id),
    {
        match self.recursion_limits.get(rule_id) {
            Some(l) => *l,
            None => self.default_recursion_limit,
        }
    }

    pub fn get_execution_count(&self, rule_id: u32) -> (c: u32)
        requires
            self.wf(),
        ensures
            c == self.count_of(rule_id),
    {
        match self.execution_counts.get(rule_id) {
            Some(c) => *c,
            None => 0,
        }
    }

    /// The call chain that a call of `rule_id` would close, if it is on the stack.
    pub fn detect_indirect_recursion(&self, rule_id: u32) -> (r: Option<Vec<u32>>)
        requires
            self.wf(),
        ensures
            match r {
                Some(v) => Self::cycle_of(self.stack(), rule_id) == Some(v@),
                None => Self::cycle_of(self.stack(), rule_id) is None,
            },
    {
        let mut i: usize = 0;
        while i < self.call_stack.len()
            invariant
                i <= self.call_stack.len(),
                forall|j: int| 0 <= j < i ==> self.call_stack@[j] != rule_id,
            decreases self.call_stack.len() - i,
        {
            if self.call_stack[i] == rule_id {
                let mut cycle: Vec<u32> = Vec::new();
                let mut k: usize = i;
                while k < self.call_stack.len()
                    invariant
                        i <= k <= self.call_stack.len(),
                        cycle@ == self.call_stack@.subrange(i as int, k as int),
                    decreases self.call_stack.len() - k,
                {
                    cycle.push(self.call_stack[k]);
                    k += 1;
                    assert(cycle@ =~= self.call_stack@.subrange(i as int, k as int));
                }
                cycle.push(rule_id);
                proof {
                    let s = self.stack();
                    assert(s.contains(rule_id));
                    let first = choose|f: int| 0 <= f < s.len() && s[f] == rule_id && forall|j: int| 0 <= j < f ==> s[j] != rule_id;
                    assert(0 <= i < s.len() && s[i as int] == rule_id && forall|j: int| 0 <= j < i ==> s[j] != rule_id);
                    assert(first == i);
                }
                return Some(cycle);
            }
            i += 1;
        }
        None
    }

    pub fn reset_rule_count(&mut self, rule_id: u32)
        requires
            old(self).wf(),
        ensures
            final(self).wf(),
            final(self).counts() == old(self).counts().insert(rule_id, 0),
            final(self).limits() == old(self).limits(),
            final(self).active() == old(self).active(),
            final(self).stack() == old(self).stack(),
            final(self).max_depth() == old(self).max_depth(),
            final(self).default_limit() == old(self).default_limit(),
    {
        self.execution_counts.insert(rule_id, 0);
    }

    pub fn reset_all_counts(&mut self)
        requires
            old(self).wf(),
        ensures
            final(self).wf(),
            final(self).counts() == Map::<u32, u32>::empty(),
            final(self).limits() == old(self).limits(),
            final(self).active() == old(self).active(),
            final(self).stack() == old(self).stack(),
            final(self).max_depth() == old(self).max_depth(),
            final(self).default_limit() == old(self).default_limit(),
    {
        self.execution_counts.clear();
    }

    pub fn set_default_recursion_limit(&mut self, limit: u32)
        requires
            old(self).wf(),
        ensures
            final(self).wf(),
            final(self).default_limit() == limit,
            final(self).counts() == old(self).counts(),
            final(self).limits() == old(self).limits(),
            final(self).active() == old(self).active(),
            final(self).stack() == old(self).stack(),
            final(self).max_depth() == old(self).max_depth(),
    {
        self.default_recursion_limit = limit;
    }

    pub fn get_default_recursion_limit(&self) -> (l: u32)
        ensures
            l == self.default_limit(),
    {
        self.default_recursion_limit
    }

    pub fn set_max_call_depth(&mut self, depth: u32)
        requires
            old(self).wf(),
        ensures
            final(self).wf(),
            final(self).max_depth() == depth,
            final(self).default_limit() == old(self).default_limit(),
            final(self).counts() == old(self).counts(),
            final(self).limits() == old(self).limits(),
            final(self).active() == old(self).active(),
            final(self).stack() == old(self).stack(),
    {
        self.max_call_depth = depth;
    }

    pub fn get_call_stack(&self) -> (s: &[u32])
        ensures
            s@ == self.stack(),
    {
        self.call_stack.as_slice()
    }

    pub fn has_active_rules(&self) -> (b: bool)
        requires
            self.wf(),
        ensures
            b == !self.active().is_empty(),
    {
        if self.active_rules.len() == 0 {
            assert(self.active() =~= Set::<u32>::empty());
            false
        } else {
            assert(self.active().contains(self.active_rules@[0]));
            true
        }
    }

    /// The active rules, each once, in the order in which they became active.
    pub fn get_active_rules(&self) -> (v: &[u32])
        requires
            self.wf(),
        ensures
            v@.to_set() == self.active(),
            v@.no_duplicates(),
    {
        self.active_rules.as_slice()
    }

    pub fn is_rule_active(&self, rule_id: u32) -> (b: bool)
        requires
            self.wf(),
        ensures
            b == self.active().contains(rule_id),
    {
        self.active_position(rule_id).is_some()
    }
}

/// A successful start followed by the end of the same rule gives back the call
/// stack, the active set (when the rule was not active before) and the limits.
pub proof fn law_start_then_end_restores(g0: RecursionGuard, g1: RecursionGuard, g2: RecursionGuard, r: u32)
    requires
        g0.wf(),
        g1.wf(),
        !g0.active().contains(r),
        g1.active() == g0.active().insert(r),
        g1.stack() == g0.stack().push(r),
        g2.active() == g1.active().remove(r),
        g1.stack().contains(r) ==> exists|p: int|
            0 <= p < g1.stack().len()
            && g1.stack()[p] == r
            && (forall|q: int| p < q < g1.stack().len() ==> g1.stack()[q] != r)
            && g2.stack() == g1.stack().remove(p),
    ensures
        g2.stack() == g0.stack(),
        g2.active() == g0.active(),
{
    let n = g0.stack().len() as int;
    assert(g1.stack()[n] == r);
    let p = choose|p: int|
        0 <= p < g1.stack().len()
        && g1.stack()[p] == r
        && (forall|q: int| p < q < g1.stack().len() ==> g1.stack()[q] != r)
        && g2.stack() == g1.stack().remove(p);
    assert(p == n);
    assert(g2.stack() =~= g0.stack());
    assert(g2.active() =~= g0.active());
}

} // verus!
