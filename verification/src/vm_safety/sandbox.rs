//! The sandbox: which external functions and I/O channels a program may use, and
//! how often.
use vstd::prelude::*;
use crate::maps::{NameMap, views};
use crate::text::{str_eq, join2};

verus! {

/// Refusals of the sandbox.
#[derive(Debug, Clone, PartialEq, Eq)]
pub enum SandboxError {
    FunctionNotAllowed(String),
    IoChannelNotAllowed(String),
    CallLimitExceeded(String),
}

impl SandboxError {
    pub open spec fn spec_message(&self) -> Seq<char> {
        match self {
            SandboxError::FunctionNotAllowed(n) => "Function not allowed in sandbox: "@ + n@,
            SandboxError::IoChannelNotAllowed(n) => "IO channel not allowed in sandbox: "@ + n@,
            SandboxError::CallLimitExceeded(n) => "Call limit exceeded for function: "@ + n@,
        }
    }

    pub fn message(&self) -> (s: String)
        ensures
            s@ == self.spec_message(),
    {
        match self {
            SandboxError::FunctionNotAllowed(n) => join2("Function not allowed in sandbox: ", n.as_str()),
            SandboxError::IoChannelNotAllowed(n) => join2("IO channel not allowed in sandbox: ", n.as_str()),
            SandboxError::CallLimitExceeded(n) => join2("Call limit exceeded for function: ", n.as_str()),
        }
    }
}

/// Whether a list of names holds `name`.
fn names_contain(names: &Vec<String>, name: &str) -> (b: bool)
    ensures
        b == views(names@).contains(name@),
{
    let mut i: usize = 0;
    while i < names.len()
        invariant
            i <= names.len(),
            forall|j: int| 0 <= j < i ==> names@[j]@ != name@,
        decreases names.len() - i,
    {
        if str_eq(names[i].as_str(), name) {
            assert(views(names@)[i as int] == name@);
            return true;
        }
        i += 1;
    }
    assert forall|j: int| 0 <= j < views(names@).len() implies views(names@)[j] != name@ by {
        assert(views(names@)[j] == names@[j]@);
    }
    false
}

/// Which functions and channels are allowed, and call limits per function.
#[derive(Debug, Clone)]
pub struct SandboxPolicy {
    pub allowed_functions: Vec<String>,
    pub allowed_io_channels: Vec<String>,
    pub max_calls_per_function: NameMap<u64>,
}

impl SandboxPolicy {
    pub open spec fn wf(&self) -> bool {
        self.max_calls_per_function.wf()
    }

    pub open spec fn functions(&self) -> Seq<Seq<char>> {
        views(self.allowed_functions@)
    }

    pub open spec fn channels(&self) -> Seq<Seq<char>> {
        views(self.allowed_io_channels@)
    }

    /// A policy that allows nothing.
    pub fn new() -> (p: Self)
        ensures
            p.wf(),
            p.functions() == Seq::<Seq<char>>::empty(),
            p.channels() == Seq::<Seq<char>>::empty(),
            p.max_calls_per_function@ == Map::<Seq<char>, u64>::empty(),
    {
        let p = SandboxPolicy { allowed_functions: Vec::new(), allowed_io_channels: Vec::new(), max_calls_per_function: NameMap::new() };
        assert(p.functions() =~= Seq::<Seq<char>>::empty());
        assert(p.channels() =~= Seq::<Seq<char>>::empty());
        p
    }

    /// Allows a function; a name already allowed is not added twice.
    pub fn allow_function(&mut self, function_name: &str)
        requires
            old(self).wf(),
        ensures
            final(self).wf(),
            old(self).functions().contains(function_name@) ==> final(self).functions() == old(self).functions(),
            !old(self).functions().contains(function_name@) ==> final(self).functions() == old(self).functions().push(function_name@),
            final(self).channels() == old(self).channels(),
            final(self).max_calls_per_function == old(self).max_calls_per_function,
    {
        if !names_contain(&self.allowed_functions, function_name) {
            self.allowed_functions.push(function_name.to_owned());
            assert(self.functions() =~= old(self).functions().push(function_name@));
        }
    }

    /// Allows an I/O channel; a name already allowed is not added twice.
    pub fn allow_io_channel(&mut self, channel_name: &str)
        requires
            old(self).wf(),
        ensures
            final(self).wf(),
            old(self).channels().contains(channel_name@) ==> final(self).channels() == old(self).channels(),
            !old(self).channels().contains(channel_name@) ==> final(self).channels() == old(self).channels().push(channel_name@),
            final(self).functions() == old(self).functions(),
            final(self).max_calls_per_function == old(self).max_calls_per_function,
    {
        if !names_contain(&self.allowed_io_channels, channel_name) {
            self.allowed_io_channels.push(channel_name.to_owned());
            assert(self.channels() =~= old(self).channels().push(channel_name@));
        }
    }

    pub fn set_max_calls_for_function(&mut self, function_name: &str, max_calls: u64)
        requires
            old(self).wf(),
        ensures
            final(self).wf(),
            final(self).max_calls_per_function@ == old(self).max_calls_per_function@.insert(function_name@, max_calls),
            final(self).functions() == old(self).functions(),
            final(self).channels() == old(self).channels(),
    {
        self.max_calls_per_function.insert(function_name.to_owned(), max_calls);
    }

    pub fn is_function_allowed(&self, function_name: &str) -> (b: bool)
        ensures
            b == self.functions().contains(function_name@),
    {
        names_contain(&self.allowed_functions, function_name)
    }

    pub fn is_io_channel_allowed(&self, channel_name: &str) -> (b: bool)
        ensures
            b == self.channels().contains(channel_name@),
    {
        names_contain(&self.allowed_io_channels, channel_name)
    }

    /// Whether one more call, after `calls` calls, would pass the function's limit;
    /// a function without a limit has none.
    pub open spec fn call_would_exceed(&self, name: Seq<char>, calls: u64) -> bool {
        self.max_calls_per_function@.contains_key(name) && calls >= self.max_calls_per_function@[name]
    }

    /// Whether a call after `current_calls` earlier calls would pass the limit.
    pub fn would_exceed_call_limit(&self, function_name: &str, current_calls: u64) -> (b: bool)
        requires
            self.wf(),
        ensures
            b == self.call_would_exceed(function_name@, current_calls),
    {
        match self.max_calls_per_function.get(function_name) {
            Some(m) => current_calls >= *m,
            None => false,
        }
    }
}

/// Calls made per function.
#[derive(Debug, Clone)]
pub struct FunctionCallTracker {
    pub call_counts: NameMap<u64>,
}

impl FunctionCallTracker {
    pub open spec fn count_of(&self, name: Seq<char>) -> u64 {
        if self.call_counts@.contains_key(name) { self.call_counts@[name] } else { 0 }
    }

    pub fn new() -> (t: Self)
        ensures
            t.call_counts.wf(),
            t.call_counts@ == Map::<Seq<char>, u64>::empty(),
    {
        FunctionCallTracker { call_counts: NameMap::new() }
    }

    /// Records a call: refused, uncounted, for a function the policy does not allow;
    /// otherwise counted, and refused when the calls made before it had reached the limit.
    pub fn record_call(&mut self, function_name: &str, policy: &SandboxPolicy) -> (r: Result<(), SandboxError>)
        requires
            old(self).call_counts.wf(),
            policy.wf(),
            old(self).count_of(function_name@) < u64::MAX,
        ensures
            final(self).call_counts.wf(),
            !policy.functions().contains(function_name@) ==> final(self).call_counts@ == old(self).call_counts@
                && (r matches Err(SandboxError::FunctionNotAllowed(n)) && n@ == function_name@),
            policy.functions().contains(function_name@) ==> final(self).call_counts@ == old(self).call_counts@.insert(function_name@, (old(self).count_of(function_name@) + 1) as u64),
            policy.functions().contains(function_name@) && policy.call_would_exceed(function_name@, old(self).count_of(function_name@))
                ==> (r matches Err(SandboxError::CallLimitExceeded(n)) && n@ == function_name@),
            policy.functions().contains(function_name@) && !policy.call_would_exceed(function_name@, old(self).count_of(function_name@))
                ==> r is Ok,
    {
        if !policy.is_function_allowed(function_name) {
            return Err(SandboxError::FunctionNotAllowed(function_name.to_owned()));
        }
        let before = self.get_call_count(function_name);
        self.call_counts.insert(function_name.to_owned(), before + 1);
        if policy.would_exceed_call_limit(function_name, before) {
            return Err(SandboxError::CallLimitExceeded(function_name.to_owned()));
        }
        Ok(())
    }

    pub fn get_call_count(&self, function_name: &str) -> (n: u64)
        requires
            self.call_counts.wf(),
        ensures
            n == self.count_of(function_name@),
    {
        match self.call_counts.get(function_name) {
            Some(c) => *c,
            None => 0,
        }
    }
}

/// Operations made per I/O channel.
#[derive(Debug, Clone)]
pub struct IoOperationTracker {
    pub io_counts: NameMap<u64>,
}

impl IoOperationTracker {
    pub open spec fn count_of(&self, name: Seq<char>) -> u64 {
        if self.io_counts@.contains_key(name) { self.io_counts@[name] } else { 0 }
    }

    pub fn new() -> (t: Self)
        ensures
            t.io_counts.wf(),
            t.io_counts@ == Map::<Seq<char>, u64>::empty(),
    {
        IoOperationTracker { io_counts: NameMap::new() }
    }

    /// Records an operation on a channel the policy allows; refused otherwise, uncounted.
    pub fn record_io_operation(&mut self, channel_name: &str, policy: &SandboxPolicy) -> (r: Result<(), SandboxError>)
        requires
            old(self).io_counts.wf(),
            old(self).count_of(channel_name@) < u64::MAX,
        ensures
            final(self).io_counts.wf(),
            !policy.channels().contains(channel_name@) ==> final(self).io_counts@ == old(self).io_counts@
                && (r matches Err(SandboxError::IoChannelNotAllowed(n)) && n@ == channel_name@),
            policy.channels().contains(channel_name@) ==> r is Ok
                && final(self).io_counts@ == old(self).io_counts@.insert(channel_name@, (old(self).count_of(channel_name@) + 1) as u64),
    {
        if !policy.is_io_channel_allowed(channel_name) {
            return Err(SandboxError::IoChannelNotAllowed(channel_name.to_owned()));
        }
        let before = self.get_io_count(channel_name);
        self.io_counts.insert(channel_name.to_owned(), before + 1);
        Ok(())
    }

    pub fn get_io_count(&self, channel_name: &str) -> (n: u64)
        requires
            self.io_counts.wf(),
        ensures
            n == self.count_of(channel_name@),
    {
        match self.io_counts.get(channel_name) {
            Some(c) => *c,
            None => 0,
        }
    }
}

/// A policy with the counts of what has been done under it.
#[derive(Debug)]
pub struct SandboxEnvironment {
    pub policy: SandboxPolicy,
    pub function_tracker: FunctionCallTracker,
    pub io_tracker: IoOperationTracker,
}

impl SandboxEnvironment {
    pub open spec fn wf(&self) -> bool {
        &&& self.policy.wf()
        &&& self.function_tracker.call_counts.wf()
        &&& self.io_tracker.io_counts.wf()
    }

    pub fn new(policy: SandboxPolicy) -> (e: Self)
        requires
            policy.wf(),
        ensures
            e.wf(),
            e.policy == policy,
            e.function_tracker.call_counts@ == Map::<Seq<char>, u64>::empty(),
            e.io_tracker.io_counts@ == Map::<Seq<char>, u64>::empty(),
    {
        SandboxEnvironment { policy, function_tracker: FunctionCallTracker::new(), io_tracker: IoOperationTracker::new() }
    }

    /// Makes an external call under the policy; see `FunctionCallTracker::record_call`.
    pub fn execute_external_call(&mut self, function_name: &str) -> (r: Result<(), SandboxError>)
        requires
            old(self).wf(),
            old(self).function_tracker.count_of(function_name@) < u64::MAX,
        ensures
            final(self).wf(),
            final(self).policy == old(self).policy,
            final(self).io_tracker == old(self).io_tracker,
            !old(self).policy.functions().contains(function_name@) ==> final(self).function_tracker.call_counts@ == old(self).function_tracker.call_counts@
                && (r matches Err(SandboxError::FunctionNotAllowed(n)) && n@ == function_name@),
            old(self).policy.functions().contains(function_name@) ==> final(self).function_tracker.call_counts@
                == old(self).function_tracker.call_counts@.insert(function_name@, (old(self).function_tracker.count_of(function_name@) + 1) as u64),
            old(self).policy.functions().contains(function_name@) && old(self).policy.call_would_exceed(function_name@, old(self).function_tracker.count_of(function_name@))
                ==> (r matches Err(SandboxError::CallLimitExceeded(n)) && n@ == function_name@),
            old(self).policy.functions().contains(function_name@) && !old(self).policy.call_would_exceed(function_name@, old(self).function_tracker.count_of(function_name@))
                ==> r is Ok,
    {
        self.function_tracker.record_call(function_name, &self.policy)
    }

    /// Performs an I/O operation under the policy; see `IoOperationTracker::record_io_operation`.
    pub fn execute_io_operation(&mut self, channel_name: &str) -> (r: Result<(), SandboxError>)
        requires
            old(self).wf(),
            old(self).io_tracker.count_of(channel_name@) < u64::MAX,
        ensures
            final(self).wf(),
            final(self).policy == old(self).policy,
            final(self).function_tracker == old(self).function_tracker,
            !old(self).policy.channels().contains(channel_name@) ==> final(self).io_tracker.io_counts@ == old(self).io_tracker.io_counts@
                && (r matches Err(SandboxError::IoChannelNotAllowed(n)) && n@ == channel_name@),
            old(self).policy.channels().contains(channel_name@) ==> r is Ok
                && final(self).io_tracker.io_counts@ == old(self).io_tracker.io_counts@.insert(channel_name@, (old(self).io_tracker.count_of(channel_name@) + 1) as u64),
    {
        self.io_tracker.record_io_operation(channel_name, &self.policy)
    }

    /// Whether the policy allows at least one function or channel.
    pub fn is_sandboxed(&self) -> (b: bool)
        ensures
            b == (self.policy.allowed_functions@.len() > 0 || self.policy.allowed_io_channels@.len() > 0),
    {
        self.policy.allowed_functions.len() > 0 || self.policy.allowed_io_channels.len() > 0
    }

    pub fn get_function_call_count(&self, function_name: &str) -> (n: u64)
        requires
            self.wf(),
        ensures
            n == self.function_tracker.count_of(function_name@),
    {
        self.function_tracker.get_call_count(function_name)
    }

    pub fn get_io_operation_count(&self, channel_name: &str) -> (n: u64)
        requires
            self.wf(),
        ensures
            n == self.io_tracker.count_of(channel_name@),
    {
        self.io_tracker.get_io_count(channel_name)
    }
}

/// Under a limit of `m` calls, the calls numbered 1 to `m` are accepted and every later one is refused.
pub proof fn law_call_limit_admits_exactly_max(p: SandboxPolicy, name: Seq<char>, before: u64)
    requires
        p.max_calls_per_function@.contains_key(name),
    ensures
        !p.call_would_exceed(name, before) <==> before + 1 <= p.max_calls_per_function@[name],
{
}

} // verus!
