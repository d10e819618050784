//! The conflict table of the rule engine and its resolution.
use vstd::prelude::*;
use crate::rule_engine::types::{ConflictEntry, ResolutionMode, RuleExecutionInfo};
use crate::text::{decimal, u64_to_decimal};

verus! {

#[derive(Debug, Clone)]
pub struct ConflictResolutionEvent {
    pub rule_id: u32,
    pub target_symbol_id: u32,
    pub resolution_mode: ResolutionMode,
    pub timestamp: u32,
}

/// The first rule with id `id`.
pub open spec fn find_rule(rules: Seq<RuleExecutionInfo>, id: u32) -> Option<RuleExecutionInfo>
    decreases rules.len(),
{
    if rules.len() == 0 {
        None
    } else if rules[0].rule_id == id {
        Some(rules[0])
    } else {
        find_rule(rules.drop_first(), id)
    }
}

pub proof fn lemma_find_rule_id(rules: Seq<RuleExecutionInfo>, id: u32)
    ensures
        find_rule(rules, id) matches Some(r) ==> r.rule_id == id,
    decreases rules.len(),
{
    if rules.len() > 0 && rules[0].rule_id != id {
        lemma_find_rule_id(rules.drop_first(), id);
    }
}

/// The id and priority of the winner among the conflicting ids: the first, in the
/// order of `ids`, of strictly greatest priority above zero; `(0, 0)` when none is above zero.
pub open spec fn winner_of(rules: Seq<RuleExecutionInfo>, ids: Seq<u32>) -> (u32, u16)
    decreases ids.len(),
{
    if ids.len() == 0 {
        (0, 0)
    } else {
        let w = winner_of(rules, ids.drop_last());
        match find_rule(rules, ids.last()) {
            Some(r) => if r.priority > w.1 { (r.rule_id, r.priority) } else { w },
            None => w,
        }
    }
}

/// A rule among the conflicting ids, other than the winner, drops to priority zero.
pub open spec fn demoted(r: RuleExecutionInfo, ids: Seq<u32>, winner: u32) -> RuleExecutionInfo {
    if ids.contains(r.rule_id) && r.rule_id != winner {
        RuleExecutionInfo { priority: 0, ..r }
    } else {
        r
    }
}

pub open spec fn demote_all(rules: Seq<RuleExecutionInfo>, ids: Seq<u32>, winner: u32) -> Seq<RuleExecutionInfo> {
    rules.map_values(|r: RuleExecutionInfo| demoted(r, ids, winner))
}

/// The rules after resolving the conflicts in order: `Override` keeps the winner and
/// drops the others to priority zero, `Ignore` and `Merge` change nothing, and
/// `Error` stops with the rules as they are and the conflicting ids.
pub open spec fn apply_conflicts(rules: Seq<RuleExecutionInfo>, table: Seq<ConflictEntry>) -> Result<Seq<RuleExecutionInfo>, (Seq<RuleExecutionInfo>, Seq<u32>)>
    decreases table.len(),
{
    if table.len() == 0 {
        Ok(rules)
    } else {
        let c = table[0];
        match c.resolution_mode {
            ResolutionMode::Override => apply_conflicts(demote_all(rules, c.conflicting_rules@, winner_of(rules, c.conflicting_rules@).0), table.drop_first()),
            ResolutionMode::Error => Err((rules, c.conflicting_rules@)),
            _ => apply_conflicts(rules, table.drop_first()),
        }
    }
}

/// The ids written as a list: `[1, 2, 3]`.
pub open spec fn list_text(ids: Seq<u32>) -> Seq<char> {
    "["@ + items_text(ids) + "]"@
}

pub open spec fn items_text(ids: Seq<u32>) -> Seq<char>
    decreases ids.len(),
{
    if ids.len() == 0 {
        Seq::empty()
    } else if ids.len() == 1 {
        decimal(ids[0] as nat)
    } else {
        items_text(ids.drop_last()) + ", "@ + decimal(ids.last() as nat)
    }
}

/// The message for conflicting rules under `Error`.
pub open spec fn conflict_message(ids: Seq<u32>) -> Seq<char> {
    "Conflict detected between rules: "@ + list_text(ids)
}

fn list_string(ids: &Vec<u32>) -> (s: String)
    ensures
        s@ == list_text(ids@),
{
    let mut s = "[".to_owned();
    let mut i: usize = 0;
    let ghost head = s@;
    while i < ids.len()
        invariant
            i <= ids.len(),
            head == "["@,
            s@ == head + items_text(ids@.subrange(0, i as int)),
        decreases ids.len() - i,
    {
        let d = u64_to_decimal(ids[i] as u64);
        let ghost prev = s@;
        if i > 0 {
            s.append(", ");
        }
        s.append(d.as_str());
        proof {
            let sub = ids@.subrange(0, i + 1);
            assert(sub.drop_last() =~= ids@.subrange(0, i as int));
            if i == 0 {
                assert(ids@.subrange(0, 0).len() == 0);
                assert(s@ =~= head + items_text(sub));
            } else {
                assert(s@ =~= head + items_text(sub));
            }
        }
        i += 1;
    }
    s.append("]");
    assert(ids@.subrange(0, i as int) =~= ids@);
    s
}

#[derive(Debug, Clone)]
pub struct ConflictResolver {
    pub conflict_table: Vec<ConflictEntry>,
    pub resolution_history: Vec<ConflictResolutionEvent>,
}

impl ConflictResolver {
    pub fn new() -> (r: Self)
        ensures
            r.conflict_table@ == Seq::<ConflictEntry>::empty(),
            r.resolution_history@ == Seq::<ConflictResolutionEvent>::empty(),
    {
        ConflictResolver { conflict_table: Vec::new(), resolution_history: Vec::new() }
    }

    pub fn add_conflict(&mut self, conflict: ConflictEntry)
        ensures
            final(self).conflict_table@ == old(self).conflict_table@.push(conflict),
            final(self).resolution_history == old(self).resolution_history,
    {
        self.conflict_table.push(conflict);
    }

    /// Pairs of rules that conflict; no two rules are judged to conflict.
    pub fn detect_conflicts(&self, rules: &[RuleExecutionInfo]) -> (r: Vec<ConflictEntry>)
        ensures
            r@ == Seq::<ConflictEntry>::empty(),
    {
        let mut conflicts: Vec<ConflictEntry> = Vec::new();
        let mut i: usize = 0;
        while i < rules.len()
            invariant
                i <= rules.len(),
                conflicts@ == Seq::<ConflictEntry>::empty(),
            decreases rules.len() - i,
        {
            let mut j: usize = i + 1;
            while j < rules.len()
                invariant
                    i < rules.len(),
                    i + 1 <= j <= rules.len(),
                    conflicts@ == Seq::<ConflictEntry>::empty(),
                decreases rules.len() - j,
            {
                if self.rules_conflict(&rules[i], &rules[j]) {
                    let mut ids: Vec<u32> = Vec::new();
                    ids.push(rules[i].rule_id);
                    ids.push(rules[j].rule_id);
                    conflicts.push(ConflictEntry { target_symbol_id: 0, conflicting_rules: ids, resolution_mode: ResolutionMode::Override });
                }
                j += 1;
            }
            i += 1;
        }
        conflicts
    }

    /// Whether two rules conflict; rules are not compared, so never.
    fn rules_conflict(&self, rule1: &RuleExecutionInfo, rule2: &RuleExecutionInfo) -> (b: bool)
        ensures
            !b,
    {
        false
    }

    /// Resolves the conflicts of the table in order; see `apply_conflicts`.
    pub fn resolve_conflicts(&mut self, rules: &mut Vec<RuleExecutionInfo>) -> (r: Result<(), String>)
        ensures
            *final(self) == *old(self),
            match apply_conflicts(old(rules)@, old(self).conflict_table@) {
                Ok(out) => r is Ok && final(rules)@ == out,
                Err((out, ids)) => final(rules)@ == out && (r matches Err(msg) && msg@ == conflict_message(ids)),
            },
    {
        let mut i: usize = 0;
        proof {
            assert(self.conflict_table@.skip(0) =~= self.conflict_table@);
        }
        while i < self.conflict_table.len()
            invariant
                *self == *old(self),
                i <= self.conflict_table@.len(),
                apply_conflicts(old(rules)@, self.conflict_table@) == apply_conflicts(rules@, self.conflict_table@.skip(i as int)),
            decreases self.conflict_table@.len() - i,
        {
            let ghost t = self.conflict_table@.skip(i as int);
            proof {
                assert(t[0] == self.conflict_table@[i as int]);
                assert(t.drop_first() =~= self.conflict_table@.skip(i + 1));
            }
            match self.conflict_table[i].resolution_mode {
                ResolutionMode::Override => {
                    self.resolve_by_priority(rules, &self.conflict_table[i].conflicting_rules);
                },
                ResolutionMode::Error => {
                    let msg = list_string(&self.conflict_table[i].conflicting_rules);
                    let mut full = "Conflict detected between rules: ".to_owned();
                    full.append(msg.as_str());
                    return Err(full);
                },
                ResolutionMode::Ignore => {},
                ResolutionMode::Merge => {
                    self.resolve_by_merging(rules, &self.conflict_table[i].conflicting_rules);
                },
            }
            i += 1;
        }
        Ok(())
    }

    /// Keeps the winner among the conflicting ids and drops the others to priority zero.
    fn resolve_by_priority(&self, rules: &mut Vec<RuleExecutionInfo>, conflicting_rule_ids: &Vec<u32>)
        ensures
            final(rules)@ == demote_all(old(rules)@, conflicting_rule_ids@, winner_of(old(rules)@, conflicting_rule_ids@).0),
    {
        let mut highest_priority_rule_id: u32 = 0;
        let mut highest_priority: u16 = 0;
        let mut k: usize = 0;
        while k < conflicting_rule_ids.len()
            invariant
                k <= conflicting_rule_ids.len(),
                (highest_priority_rule_id, highest_priority) == winner_of(rules@, conflicting_rule_ids@.subrange(0, k as int)),
            decreases conflicting_rule_ids.len() - k,
        {
            let id = conflicting_rule_ids[k];
            proof {
                assert(conflicting_rule_ids@.subrange(0, k + 1).drop_last() =~= conflicting_rule_ids@.subrange(0, k as int));
                assert(conflicting_rule_ids@.subrange(0, k + 1).last() == id);
                lemma_find_rule_id(rules@, id);
            }
            match Self::find_rule_priority(rules, id) {
                Some(p) => {
                    if p > highest_priority {
                        highest_priority = p;
                        highest_priority_rule_id = id;
                    }
                },
                None => {},
            }
            k += 1;
        }
        assert(conflicting_rule_ids@.subrange(0, k as int) =~= conflicting_rule_ids@);
        let mut src: Vec<RuleExecutionInfo> = Vec::new();
        std::mem::swap(&mut src, rules);
        let n = src.len();
        let ghost all = src@;
        let ghost ids = conflicting_rule_ids@;
        let mut out: Vec<RuleExecutionInfo> = Vec::new();
        let mut j: usize = 0;
        while src.len() > 0
            invariant
                all.len() <= usize::MAX,
                j + src@.len() == all.len(),
                src@ == all.skip(j as int),
                out@ == demote_all(all.subrange(0, j as int), ids, highest_priority_rule_id),
                ids == conflicting_rule_ids@,
            decreases src.len(),
        {
            let mut r = src.remove(0);
            let mut member = false;
            let mut q: usize = 0;
            while q < conflicting_rule_ids.len()
                invariant
                    q <= conflicting_rule_ids.len(),
                    member == conflicting_rule_ids@.subrange(0, q as int).contains(r.rule_id),
                decreases conflicting_rule_ids.len() - q,
            {
                let ghost prev = conflicting_rule_ids@.subrange(0, q as int);
                let ghost sub = conflicting_rule_ids@.subrange(0, q + 1);
                proof {
                    assert(sub =~= prev.push(conflicting_rule_ids@[q as int]));
                    assert forall|x: u32| sub.contains(x) == (prev.contains(x) || conflicting_rule_ids@[q as int] == x) by {
                        if prev.contains(x) {
                            let y = choose|y: int| 0 <= y < prev.len() && prev[y] == x;
                            assert(sub[y] == x);
                        }
                        if conflicting_rule_ids@[q as int] == x {
                            assert(sub[q as int] == x);
                        }
                        if sub.contains(x) {
                            let y = choose|y: int| 0 <= y < sub.len() && sub[y] == x;
                            if y < q {
                                assert(prev[y] == x);
                            }
                        }
                    }
                }
                if conflicting_rule_ids[q] == r.rule_id {
                    member = true;
                }
                q += 1;
            }
            assert(conflicting_rule_ids@.subrange(0, q as int) =~= conflicting_rule_ids@);
            if member && r.rule_id != highest_priority_rule_id {
                r.priority = 0;
            }
            let ghost prev = out@;
            out.push(r);
            proof {
                assert(all.subrange(0, j + 1) =~= all.subrange(0, j as int).push(all[j as int]));
                assert(out@ =~= demote_all(all.subrange(0, j + 1), ids, highest_priority_rule_id));
            }
            j += 1;
        }
        assert(all.subrange(0, j as int) =~= all);
        *rules = out;
    }

    /// The priority of the first rule with id `id`.
    fn find_rule_priority(rules: &Vec<RuleExecutionInfo>, id: u32) -> (p: Option<u16>)
        ensures
            match find_rule(rules@, id) {
                Some(r) => p == Some(r.priority),
                None => p is None,
            },
    {
        let mut i: usize = 0;
        assert(rules@.skip(0) =~= rules@);
        while i < rules.len()
            invariant
                i <= rules.len(),
                find_rule(rules@, id) == find_rule(rules@.skip(i as int), id),
            decreases rules.len() - i,
        {
            proof {
                assert(rules@.skip(i as int).drop_first() =~= rules@.skip(i + 1));
            }
            if rules[i].rule_id == id {
                return Some(rules[i].priority);
            }
            i += 1;
        }
        None
    }

    /// Merging leaves every conflicting rule to run as it is.
    fn resolve_by_merging(&self, rules: &mut Vec<RuleExecutionInfo>, conflicting_rule_ids: &Vec<u32>)
        ensures
            *final(rules) == *old(rules),
    {
    }

    /// Whether some conflict of the table names `rule_id`.
    pub fn has_unresolved_conflicts(&self, rule_id: u32) -> (b: bool)
        ensures
            b == exists|i: int| 0 <= i < self.conflict_table@.len() && (#[trigger] self.conflict_table@[i]).conflicting_rules@.contains(rule_id),
    {
        self.get_resolution_mode(rule_id).is_some()
    }

    /// The mode of the first conflict of the table that names `rule_id`.
    pub fn get_resolution_mode(&self, rule_id: u32) -> (m: Option<ResolutionMode>)
        ensures
            match m {
                Some(mode) => exists|i: int| 0 <= i < self.conflict_table@.len()
                    && (#[trigger] self.conflict_table@[i]).conflicting_rules@.contains(rule_id)
                    && self.conflict_table@[i].resolution_mode == mode
                    && forall|j: int| 0 <= j < i ==> !(#[trigger] self.conflict_table@[j]).conflicting_rules@.contains(rule_id),
                None => forall|i: int| 0 <= i < self.conflict_table@.len() ==> !(#[trigger] self.conflict_table@[i]).conflicting_rules@.contains(rule_id),
            },
    {
        let mut i: usize = 0;
        while i < self.conflict_table.len()
            invariant
                i <= self.conflict_table@.len(),
                forall|j: int| 0 <= j < i ==> !(#[trigger] self.conflict_table@[j]).conflicting_rules@.contains(rule_id),
            decreases self.conflict_table@.len() - i,
        {
            let ids = &self.conflict_table[i].conflicting_rules;
            let mut q: usize = 0;
            while q < ids.len()
                invariant
                    i < self.conflict_table@.len(),
                    *ids == self.conflict_table@[i as int].conflicting_rules,
                    forall|j: int| 0 <= j < i ==> !(#[trigger] self.conflict_table@[j]).conflicting_rules@.contains(rule_id),
                    q <= ids.len(),
                    forall|x: int| 0 <= x < q ==> ids@[x] != rule_id,
                decreases ids.len() - q,
            {
                if ids[q] == rule_id {
                    assert(self.conflict_table@[i as int].conflicting_rules@.contains(rule_id));
                    return Some(self.conflict_table[i].resolution_mode);
                }
                q += 1;
            }
            i += 1;
        }
        None
    }

    /// Appends an event stamped with the number of earlier events.
    pub fn record_resolution_event(&mut self, rule_id: u32, target_symbol_id: u32, resolution_mode: ResolutionMode)
        ensures
            final(self).conflict_table == old(self).conflict_table,
            final(self).resolution_history@ == old(self).resolution_history@.push(ConflictResolutionEvent {
                rule_id,
                target_symbol_id,
                resolution_mode,
                timestamp: old(self).resolution_history@.len() as u32,
            }),
    {
        let n = self.resolution_history.len();
        let event = ConflictResolutionEvent { rule_id, target_symbol_id, resolution_mode, timestamp: n as u32 };
        self.resolution_history.push(event);
    }

    pub fn clear_conflicts(&mut self)
        ensures
            final(self).conflict_table@ == Seq::<ConflictEntry>::empty(),
            final(self).resolution_history == old(self).resolution_history,
    {
        self.conflict_table.clear();
    }

    pub fn get_conflicts(&self) -> (c: &[ConflictEntry])
        ensures
            c@ == self.conflict_table@,
    {
        self.conflict_table.as_slice()
    }
}

} // verus!
