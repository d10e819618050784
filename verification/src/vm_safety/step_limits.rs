//! Counting of execution steps, rule invocations and loop iterations against limits.
use vstd::prelude::*;

verus! {

#[derive(Debug, Clone, Copy, PartialEq, Eq)]
pub struct ExecutionLimits {
    pub max_steps: u64,
    pub max_rule_invocations: u64,
    pub max_loop_iterations: u64,
}

impl ExecutionLimits {
    pub fn new(max_steps: u64, max_rule_invocations: u64, max_loop_iterations: u64) -> (l: Self)
        ensures
            l == (ExecutionLimits { max_steps, max_rule_invocations, max_loop_iterations }),
    {
        ExecutionLimits { max_steps, max_rule_invocations, max_loop_iterations }
    }

    /// A million steps, a hundred thousand rule invocations and loop iterations.
    pub fn default() -> (l: Self)
        ensures
            l == (ExecutionLimits { max_steps: 1_000_000, max_rule_invocations: 100_000, max_loop_iterations: 100_000 }),
    {
        ExecutionLimits { max_steps: 1_000_000, max_rule_invocations: 100_000, max_loop_iterations: 100_000 }
    }
}

#[derive(Debug, Clone, Copy, PartialEq, Eq)]
pub enum StepLimitError {
    StepLimitExceeded,
    RuleLimitExceeded,
    LoopLimitExceeded,
}

impl StepLimitError {
    pub open spec fn spec_message(self) -> Seq<char> {
        match self {
            StepLimitError::StepLimitExceeded => "Execution step limit exceeded"@,
            StepLimitError::RuleLimitExceeded => "Rule invocation limit exceeded"@,
            StepLimitError::LoopLimitExceeded => "Loop iteration limit exceeded"@,
        }
    }

    pub fn message(&self) -> (s: String)
        ensures
            s@ == self.spec_message(),
    {
        match self {
            StepLimitError::StepLimitExceeded => "Execution step limit exceeded".to_owned(),
            StepLimitError::RuleLimitExceeded => "Rule invocation limit exceeded".to_owned(),
            StepLimitError::LoopLimitExceeded => "Loop iteration limit exceeded".to_owned(),
        }
    }
}

#[derive(Debug, Clone, Copy, PartialEq, Eq)]
pub struct ExecutionCounters {
    pub step_count: u64,
    pub rule_invocation_count: u64,
    pub loop_iteration_count: u64,
}

impl ExecutionCounters {
    pub fn new() -> (c: Self)
        ensures
            c == (ExecutionCounters { step_count: 0, rule_invocation_count: 0, loop_iteration_count: 0 }),
    {
        ExecutionCounters { step_count: 0, rule_invocation_count: 0, loop_iteration_count: 0 }
    }

    /// Counts a step; an error when the count goes above the step limit.
    pub fn increment_step(&mut self, limits: &ExecutionLimits) -> (r: Result<(), StepLimitError>)
        requires
            old(self).step_count < u64::MAX,
        ensures
            *final(self) == (ExecutionCounters { step_count: (old(self).step_count + 1) as u64, ..*old(self) }),
            r is Err <==> final(self).step_count > limits.max_steps,
            r matches Err(e) ==> e == StepLimitError::StepLimitExceeded,
    {
        self.step_count = self.step_count + 1;
        if self.step_count > limits.max_steps {
            return Err(StepLimitError::StepLimitExceeded);
        }
        Ok(())
    }

    /// Counts a rule invocation; an error when the count goes above its limit.
    pub fn increment_rule_invocation(&mut self, limits: &ExecutionLimits) -> (r: Result<(), StepLimitError>)
        requires
            old(self).rule_invocation_count < u64::MAX,
        ensures
            *final(self) == (ExecutionCounters { rule_invocation_count: (old(self).rule_invocation_count + 1) as u64, ..*old(self) }),
            r is Err <==> final(self).rule_invocation_count > limits.max_rule_invocations,
            r matches Err(e) ==> e == StepLimitError::RuleLimitExceeded,
    {
        self.rule_invocation_count = self.rule_invocation_count + 1;
        if self.rule_invocation_count > limits.max_rule_invocations {
            return Err(StepLimitError::RuleLimitExceeded);
        }
        Ok(())
    }

    /// Counts a loop iteration; an error when the count goes above its limit.
    pub fn increment_loop_iteration(&mut self, limits: &ExecutionLimits) -> (r: Result<(), StepLimitError>)
        requires
            old(self).loop_iteration_count < u64::MAX,
        ensures
            *final(self) == (ExecutionCounters { loop_iteration_count: (old(self).loop_iteration_count + 1) as u64, ..*old(self) }),
            r is Err <==> final(self).loop_iteration_count > limits.max_loop_iterations,
            r matches Err(e) ==> e == StepLimitError::LoopLimitExceeded,
    {
        self.loop_iteration_count = self.loop_iteration_count + 1;
        if self.loop_iteration_count > limits.max_loop_iterations {
            return Err(StepLimitError::LoopLimitExceeded);
        }
        Ok(())
    }

    /// The first counter, in the order steps, rule invocations, loop iterations, above its limit.
    pub open spec fn first_over(self, limits: ExecutionLimits) -> Option<StepLimitError> {
        if self.step_count > limits.max_steps {
            Some(StepLimitError::StepLimitExceeded)
        } else if self.rule_invocation_count > limits.max_rule_invocations {
            Some(StepLimitError::RuleLimitExceeded)
        } else if self.loop_iteration_count > limits.max_loop_iterations {
            Some(StepLimitError::LoopLimitExceeded)
        } else {
            None
        }
    }

    pub fn exceeds_limit(&self, limits: &ExecutionLimits) -> (r: Option<StepLimitError>)
        ensures
            r == self.first_over(*limits),
    {
        if self.step_count > limits.max_steps {
            return Some(StepLimitError::StepLimitExceeded);
        }
        if self.rule_invocation_count > limits.max_rule_invocations {
            return Some(StepLimitError::RuleLimitExceeded);
        }
        if self.loop_iteration_count > limits.max_loop_iterations {
            return Some(StepLimitError::LoopLimitExceeded);
        }
        None
    }
}

/// `limit - used`, or zero once the limit is reached.
pub open spec fn remaining(limit: u64, used: u64) -> u64 {
    if used >= limit { 0 } else { (limit - used) as u64 }
}

/// Limits together with the counters they bound.
#[derive(Debug)]
pub struct StepLimiter {
    pub limits: ExecutionLimits,
    pub counters: ExecutionCounters,
}

impl StepLimiter {
    pub fn new(limits: ExecutionLimits) -> (s: Self)
        ensures
            s.limits == limits,
            s.counters == (ExecutionCounters { step_count: 0, rule_invocation_count: 0, loop_iteration_count: 0 }),
    {
        StepLimiter { limits, counters: ExecutionCounters::new() }
    }

    pub fn increment_step(&mut self) -> (r: Result<(), StepLimitError>)
        requires
            old(self).counters.step_count < u64::MAX,
        ensures
            final(self).limits == old(self).limits,
            final(self).counters == (ExecutionCounters { step_count: (old(self).counters.step_count + 1) as u64, ..old(self).counters }),
            r is Err <==> final(self).counters.step_count > old(self).limits.max_steps,
            r matches Err(e) ==> e == StepLimitError::StepLimitExceeded,
    {
        self.counters.increment_step(&self.limits)
    }

    pub fn increment_rule_invocation(&mut self) -> (r: Result<(), StepLimitError>)
        requires
            old(self).counters.rule_invocation_count < u64::MAX,
        ensures
            final(self).limits == old(self).limits,
            final(self).counters == (ExecutionCounters { rule_invocation_count: (old(self).counters.rule_invocation_count + 1) as u64, ..old(self).counters }),
            r is Err <==> final(self).counters.rule_invocation_count > old(self).limits.max_rule_invocations,
            r matches Err(e) ==> e == StepLimitError::RuleLimitExceeded,
    {
        self.counters.increment_rule_invocation(&self.limits)
    }

    pub fn increment_loop_iteration(&mut self) -> (r: Result<(), StepLimitError>)
        requires
            old(self).counters.loop_iteration_count < u64::MAX,
        ensures
            final(self).limits == old(self).limits,
            final(self).counters == (ExecutionCounters { loop_iteration_count: (old(self).counters.loop_iteration_count + 1) as u64, ..old(self).counters }),
            r is Err <==> final(self).counters.loop_iteration_count > old(self).limits.max_loop_iterations,
            r matches Err(e) ==> e == StepLimitError::LoopLimitExceeded,
    {
        self.counters.increment_loop_iteration(&self.limits)
    }

    pub fn exceeds_limit(&self) -> (r: Option<StepLimitError>)
        ensures
            r == self.counters.first_over(self.limits),
    {
        self.counters.exceeds_limit(&self.limits)
    }

    /// Sets every counter back to zero.
    pub fn reset(&mut self)
        ensures
            final(self).limits == old(self).limits,
            final(self).counters == (ExecutionCounters { step_count: 0, rule_invocation_count: 0, loop_iteration_count: 0 }),
    {
        self.counters = ExecutionCounters::new();
    }

    pub fn remaining_steps(&self) -> (n: u64)
        ensures
            n == remaining(self.limits.max_steps, self.counters.step_count),
    {
        if self.counters.step_count >= self.limits.max_steps {
            0
        } else {
            self.limits.max_steps - self.counters.step_count
        }
    }

    pub fn remaining_rule_invocations(&self) -> (n: u64)
        ensures
            n == remaining(self.limits.max_rule_invocations, self.counters.rule_invocation_count),
    {
        if self.counters.rule_invocation_count >= self.limits.max_rule_invocations {
            0
        } else {
            self.limits.max_rule_invocations - self.counters.rule_invocation_count
        }
    }

    pub fn remaining_loop_iterations(&self) -> (n: u64)
        ensures
            n == remaining(self.limits.max_loop_iterations, self.counters.loop_iteration_count),
    {
        if self.counters.loop_iteration_count >= self.limits.max_loop_iterations {
            0
        } else {
            self.limits.max_loop_iterations - self.counters.loop_iteration_count
        }
    }
}

/// While a counter has not passed its limit, what is used and what remains add up to the limit.
pub proof fn law_used_plus_remaining(limit: u64, used: u64)
    requires
        used <= limit,
    ensures
        used + remaining(limit, used) == limit,
{
}

/// Starting from zero, exactly `limit` steps are accepted and the next one is refused.
pub proof fn law_steps_accepted_up_to_limit(limits: ExecutionLimits, n: u64)
    ensures
        (n <= limits.max_steps) == ((ExecutionCounters { step_count: n, rule_invocation_count: 0, loop_iteration_count: 0 }).first_over(limits) is None),
{
}

} // verus!
