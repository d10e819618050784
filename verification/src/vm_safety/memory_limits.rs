//! Memory budgets per region and their enforcement.
use vstd::prelude::*;

verus! {

/// Byte budgets of the memory regions.
#[derive(Debug, Clone, Copy, PartialEq, Eq)]
pub struct MemoryLimits {
    pub max_code_bytes: usize,
    pub max_const_bytes: usize,
    pub max_stack_bytes: usize,
    pub max_heap_bytes: usize,
    pub max_meta_bytes: usize,
}

impl MemoryLimits {
    pub fn new(
        max_code_bytes: usize,
        max_const_bytes: usize,
        max_stack_bytes: usize,
        max_heap_bytes: usize,
        max_meta_bytes: usize,
    ) -> (l: Self)
        ensures
            l == (MemoryLimits { max_code_bytes, max_const_bytes, max_stack_bytes, max_heap_bytes, max_meta_bytes }),
    {
        MemoryLimits { max_code_bytes, max_const_bytes, max_stack_bytes, max_heap_bytes, max_meta_bytes }
    }

    /// 100 KiB of code, 50 KiB of constants, 256 KiB of stack, 1 MiB of heap, 10 KiB of metadata.
    pub fn default() -> (l: Self)
        ensures
            l == (MemoryLimits {
                max_code_bytes: 102400,
                max_const_bytes: 51200,
                max_stack_bytes: 262144,
                max_heap_bytes: 1048576,
                max_meta_bytes: 10240,
            }),
    {
        MemoryLimits {
            max_code_bytes: 102400,
            max_const_bytes: 51200,
            max_stack_bytes: 262144,
            max_heap_bytes: 1048576,
            max_meta_bytes: 10240,
        }
    }

    pub open spec fn limit_of(self, region: MemoryRegion) -> usize {
        match region {
            MemoryRegion::Code => self.max_code_bytes,
            MemoryRegion::Const => self.max_const_bytes,
            MemoryRegion::Stack => self.max_stack_bytes,
            MemoryRegion::Heap => self.max_heap_bytes,
            MemoryRegion::Meta => self.max_meta_bytes,
        }
    }
}

/// Bytes in use per region.
#[derive(Debug, Clone, Copy, PartialEq, Eq)]
pub struct MemoryUsage {
    pub code_used: usize,
    pub const_used: usize,
    pub stack_used: usize,
    pub heap_used: usize,
    pub meta_used: usize,
}

/// Kinds of memory limit.
#[derive(Debug, Clone, Copy, PartialEq, Eq)]
pub enum MemoryLimitType {
    Code,
    Const,
    Stack,
    Heap,
    Meta,
}

/// The memory regions of the machine.
#[derive(Debug, Clone, Copy, PartialEq, Eq, Hash)]
pub enum MemoryRegion {
    Code,
    Const,
    Stack,
    Heap,
    Meta,
}

impl MemoryUsage {
    pub fn new() -> (u: Self)
        ensures
            u == (MemoryUsage { code_used: 0, const_used: 0, stack_used: 0, heap_used: 0, meta_used: 0 }),
    {
        MemoryUsage { code_used: 0, const_used: 0, stack_used: 0, heap_used: 0, meta_used: 0 }
    }

    pub open spec fn used_of(self, region: MemoryRegion) -> usize {
        match region {
            MemoryRegion::Code => self.code_used,
            MemoryRegion::Const => self.const_used,
            MemoryRegion::Stack => self.stack_used,
            MemoryRegion::Heap => self.heap_used,
            MemoryRegion::Meta => self.meta_used,
        }
    }

    /// The first region, in the order code, constants, stack, heap, metadata, whose
    /// usage is above its limit.
    pub open spec fn first_over(self, limits: MemoryLimits) -> Option<MemoryLimitType> {
        if self.code_used > limits.max_code_bytes {
            Some(MemoryLimitType::Code)
        } else if self.const_used > limits.max_const_bytes {
            Some(MemoryLimitType::Const)
        } else if self.stack_used > limits.max_stack_bytes {
            Some(MemoryLimitType::Stack)
        } else if self.heap_used > limits.max_heap_bytes {
            Some(MemoryLimitType::Heap)
        } else if self.meta_used > limits.max_meta_bytes {
            Some(MemoryLimitType::Meta)
        } else {
            None
        }
    }

    /// The first region whose usage is above its limit, if any.
    pub fn would_exceed_limit(&self, limits: &MemoryLimits) -> (r: Option<MemoryLimitType>)
        ensures
            r == self.first_over(*limits),
    {
        if self.code_used > limits.max_code_bytes {
            return Some(MemoryLimitType::Code);
        }
        if self.const_used > limits.max_const_bytes {
            return Some(MemoryLimitType::Const);
        }
        if self.stack_used > limits.max_stack_bytes {
            return Some(MemoryLimitType::Stack);
        }
        if self.heap_used > limits.max_heap_bytes {
            return Some(MemoryLimitType::Heap);
        }
        if self.meta_used > limits.max_meta_bytes {
            return Some(MemoryLimitType::Meta);
        }
        None
    }

    /// Whether some region's usage is above its limit.
    pub fn exceeds_limit(&self, limits: &MemoryLimits) -> (b: bool)
        ensures
            b == self.first_over(*limits) is Some,
    {
        self.would_exceed_limit(limits).is_some()
    }
}

/// Refusals of an allocation.
#[derive(Debug, Clone, Copy, PartialEq, Eq)]
pub enum MemoryLimitError {
    CodeLimitExceeded,
    ConstLimitExceeded,
    StackLimitExceeded,
    HeapLimitExceeded,
    MetaLimitExceeded,
}

impl MemoryLimitError {
    pub open spec fn of(region: MemoryRegion) -> MemoryLimitError {
        match region {
            MemoryRegion::Code => MemoryLimitError::CodeLimitExceeded,
            MemoryRegion::Const => MemoryLimitError::ConstLimitExceeded,
            MemoryRegion::Stack => MemoryLimitError::StackLimitExceeded,
            MemoryRegion::Heap => MemoryLimitError::HeapLimitExceeded,
            MemoryRegion::Meta => MemoryLimitError::MetaLimitExceeded,
        }
    }

    pub open spec fn spec_message(self) -> Seq<char> {
        match self {
            MemoryLimitError::CodeLimitExceeded => "Code memory limit exceeded"@,
            MemoryLimitError::ConstLimitExceeded => "Constant memory limit exceeded"@,
            MemoryLimitError::StackLimitExceeded => "Stack memory limit exceeded"@,
            MemoryLimitError::HeapLimitExceeded => "Heap memory limit exceeded"@,
            MemoryLimitError::MetaLimitExceeded => "Meta memory limit exceeded"@,
        }
    }

    pub fn message(&self) -> (s: String)
        ensures
            s@ == self.spec_message(),
    {
        match self {
            MemoryLimitError::CodeLimitExceeded => "Code memory limit exceeded".to_owned(),
            MemoryLimitError::ConstLimitExceeded => "Constant memory limit exceeded".to_owned(),
            MemoryLimitError::StackLimitExceeded => "Stack memory limit exceeded".to_owned(),
            MemoryLimitError::HeapLimitExceeded => "Heap memory limit exceeded".to_owned(),
            MemoryLimitError::MetaLimitExceeded => "Meta memory limit exceeded".to_owned(),
        }
    }
}

/// The usage with one region's usage replaced.
pub open spec fn with_used(u: MemoryUsage, region: MemoryRegion, v: usize) -> MemoryUsage {
    match region {
        MemoryRegion::Code => MemoryUsage { code_used: v, ..u },
        MemoryRegion::Const => MemoryUsage { const_used: v, ..u },
        MemoryRegion::Stack => MemoryUsage { stack_used: v, ..u },
        MemoryRegion::Heap => MemoryUsage { heap_used: v, ..u },
        MemoryRegion::Meta => MemoryUsage { meta_used: v, ..u },
    }
}

/// `a + b`, or the largest `usize` when that does not fit.
pub open spec fn sat_add(a: usize, b: usize) -> usize {
    if a + b <= usize::MAX { (a + b) as usize } else { usize::MAX }
}

/// `a - b`, or zero when `b` is larger.
pub open spec fn sat_sub(a: usize, b: usize) -> usize {
    if a >= b { (a - b) as usize } else { 0 }
}

/// Tracks usage per region against the limits: `region_usage` holds the
/// bytes in use in each region, `usage` the figures reported from it.
#[derive(Debug)]
pub struct MemoryManager {
    pub limits: MemoryLimits,
    pub usage: MemoryUsage,
    /// bytes in use per region, by region
    pub region_usage: MemoryUsage,
}

impl MemoryManager {
    pub fn new(limits: MemoryLimits) -> (m: Self)
        ensures
            m.limits == limits,
            m.usage == (MemoryUsage { code_used: 0, const_used: 0, stack_used: 0, heap_used: 0, meta_used: 0 }),
            m.region_usage == (MemoryUsage { code_used: 0, const_used: 0, stack_used: 0, heap_used: 0, meta_used: 0 }),
    {
        MemoryManager { limits, usage: MemoryUsage::new(), region_usage: MemoryUsage::new() }
    }

    /// Bytes in use in a region, by the per-region table.
    fn used_in(&self, region: MemoryRegion) -> (n: usize)
        ensures
            n == self.region_usage.used_of(region),
    {
        match region {
            MemoryRegion::Code => self.region_usage.code_used,
            MemoryRegion::Const => self.region_usage.const_used,
            MemoryRegion::Stack => self.region_usage.stack_used,
            MemoryRegion::Heap => self.region_usage.heap_used,
            MemoryRegion::Meta => self.region_usage.meta_used,
        }
    }

    /// Records a region's new usage in the per-region table.
    fn set_region_usage(&mut self, region: MemoryRegion, n: usize)
        ensures
            final(self).region_usage == with_used(old(self).region_usage, region, n),
            final(self).usage == old(self).usage,
            final(self).limits == old(self).limits,
    {
        match region {
            MemoryRegion::Code => self.region_usage.code_used = n,
            MemoryRegion::Const => self.region_usage.const_used = n,
            MemoryRegion::Stack => self.region_usage.stack_used = n,
            MemoryRegion::Heap => self.region_usage.heap_used = n,
            MemoryRegion::Meta => self.region_usage.meta_used = n,
        }
    }

    /// Adds `size` bytes to a region's usage in the per-region table (saturating);
    /// refused, with nothing changed, when that would go above the region's
    /// limit; else the region's figure in `usage` and in the table become it.
    pub fn allocate(&mut self, region: MemoryRegion, size: usize) -> (r: Result<(), MemoryLimitError>)
        ensures
            final(self).limits == old(self).limits,
            ({
                let n = sat_add(old(self).region_usage.used_of(region), size);
                if n > old(self).limits.limit_of(region) {
                    r == Err::<(), MemoryLimitError>(MemoryLimitError::of(region)) && final(self).usage == old(self).usage
                        && final(self).region_usage == old(self).region_usage
                } else {
                    r is Ok && final(self).usage == with_used(old(self).usage, region, n)
                        && final(self).region_usage == with_used(old(self).region_usage, region, n)
                }
            }),
    {
        let current = self.used_in(region);
        let new_usage = current.saturating_add(size);
        match region {
            MemoryRegion::Code => {
                if new_usage > self.limits.max_code_bytes {
                    return Err(MemoryLimitError::CodeLimitExceeded);
                }
                self.usage.code_used = new_usage;
            },
            MemoryRegion::Const => {
                if new_usage > self.limits.max_const_bytes {
                    return Err(MemoryLimitError::ConstLimitExceeded);
                }
                self.usage.const_used = new_usage;
            },
            MemoryRegion::Stack => {
                if new_usage > self.limits.max_stack_bytes {
                    return Err(MemoryLimitError::StackLimitExceeded);
                }
                self.usage.stack_used = new_usage;
            },
            MemoryRegion::Heap => {
                if new_usage > self.limits.max_heap_bytes {
                    return Err(MemoryLimitError::HeapLimitExceeded);
                }
                self.usage.heap_used = new_usage;
            },
            MemoryRegion::Meta => {
                if new_usage > self.limits.max_meta_bytes {
                    return Err(MemoryLimitError::MetaLimitExceeded);
                }
                self.usage.meta_used = new_usage;
            },
        }
        self.set_region_usage(region, new_usage);
        Ok(())
    }

    /// Takes `size` bytes from a region's usage in the per-region table, down to
    /// zero at most; the region's figure in `usage` and in the table become it.
    pub fn deallocate(&mut self, region: MemoryRegion, size: usize)
        ensures
            final(self).limits == old(self).limits,
            final(self).usage == with_used(old(self).usage, region, sat_sub(old(self).region_usage.used_of(region), size)),
            final(self).region_usage == with_used(old(self).region_usage, region, sat_sub(old(self).region_usage.used_of(region), size)),
    {
        let current = self.used_in(region);
        let new_usage = current.saturating_sub(size);
        match region {
            MemoryRegion::Code => self.usage.code_used = new_usage,
            MemoryRegion::Const => self.usage.const_used = new_usage,
            MemoryRegion::Stack => self.usage.stack_used = new_usage,
            MemoryRegion::Heap => self.usage.heap_used = new_usage,
            MemoryRegion::Meta => self.usage.meta_used = new_usage,
        }
        self.set_region_usage(region, new_usage);
    }

    /// Whether allocating `size` bytes in a region would be refused.
    pub fn would_allocate_exceed_limit(&self, region: MemoryRegion, size: usize) -> (b: bool)
        ensures
            b == (sat_add(self.region_usage.used_of(region), size) > self.limits.limit_of(region)),
    {
        let current = self.used_in(region);
        let new_usage = current.saturating_add(size);
        match region {
            MemoryRegion::Code => new_usage > self.limits.max_code_bytes,
            MemoryRegion::Const => new_usage > self.limits.max_const_bytes,
            MemoryRegion::Stack => new_usage > self.limits.max_stack_bytes,
            MemoryRegion::Heap => new_usage > self.limits.max_heap_bytes,
            MemoryRegion::Meta => new_usage > self.limits.max_meta_bytes,
        }
    }
}

/// An allocation that is accepted and then released gives back the usage it started from.
pub proof fn law_allocate_then_deallocate(u0: MemoryUsage, lim: MemoryLimits, region: MemoryRegion, size: usize)
    requires
        u0.used_of(region) + size <= usize::MAX,
        sat_add(u0.used_of(region), size) <= lim.limit_of(region),
    ensures
        ({
            let u1 = with_used(u0, region, sat_add(u0.used_of(region), size));
            with_used(u1, region, sat_sub(u1.used_of(region), size)) == u0
        }),
{
}

} // verus!
