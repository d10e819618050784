//! Scoring and choosing a meta-program for a request.
//!
//! A request chooses the first meta-program whose name, or one of whose
//! operators' names, occurs in it (all in lower case). Failing that, every
//! heuristic scores the request: its weight for each family of trigger words
//! that matches its own kind, plus ten for each preferred operator named in
//! the request. A heuristic with a positive score credits that score to each
//! meta-program once for every preferred operator the meta-program has, and
//! the meta-program with the highest credit wins.
use vstd::prelude::*;
use crate::maps::{NameMap, views, contains_text, copy_texts};
use crate::text::{has_infix, lowercase, str_contains, str_eq, to_lowercase};
use crate::psi::{PSI_Brain, PSI_Heuristic, PSI_MetaProgram};

verus! {

/// Two meta-programs that say the same.
pub open spec fn same_meta(a: PSI_MetaProgram, b: PSI_MetaProgram) -> bool {
    &&& a.id == b.id
    &&& a.name@ == b.name@
    &&& views(a.operators@) == views(b.operators@)
    &&& a.domain@ == b.domain@
    &&& a.adaptability == b.adaptability
}

impl PSI_MetaProgram {
    /// A copy that says the same.
    pub fn duplicate(&self) -> (r: Self)
        ensures
            same_meta(r, *self),
    {
        PSI_MetaProgram {
            id: self.id,
            name: self.name.clone(),
            operators: copy_texts(&self.operators),
            domain: self.domain.clone(),
            adaptability: self.adaptability,
        }
    }
}

// ---------------------------------------------------------------------------
// The predefined meta-programs and heuristics.

fn texts(a: &str, b: &str, c: &str) -> (r: Vec<String>)
    ensures
        views(r@) == seq![a@, b@, c@],
{
    let r = vec![a.to_owned(), b.to_owned(), c.to_owned()];
    assert(views(r@) =~= seq![a@, b@, c@]);
    r
}

fn texts4(a: &str, b: &str, c: &str, d: &str) -> (r: Vec<String>)
    ensures
        views(r@) == seq![a@, b@, c@, d@],
{
    let r = vec![a.to_owned(), b.to_owned(), c.to_owned(), d.to_owned()];
    assert(views(r@) =~= seq![a@, b@, c@, d@]);
    r
}

pub fn create_generate_module_metaprogram() -> (mp: PSI_MetaProgram)
    ensures
        mp.id == 1,
        mp.name@ == "GenerateModule"@,
        views(mp.operators@) == seq!["DefineEntities"@, "CreateRoutes"@, "ImplementAuth"@, "WriteTests"@],
        mp.domain@ == "code_generation"@,
        mp.adaptability == 80,
{
    PSI_MetaProgram {
        id: 1,
        name: "GenerateModule".to_owned(),
        operators: texts4("DefineEntities", "CreateRoutes", "ImplementAuth", "WriteTests"),
        domain: "code_generation".to_owned(),
        adaptability: 80,
    }
}

pub fn create_refactor_code_metaprogram() -> (mp: PSI_MetaProgram)
    ensures
        mp.id == 2,
        mp.name@ == "RefactorCode"@,
        views(mp.operators@) == seq!["AnalyzePatterns"@, "OptimizeQueries"@, "ApplyRefactor"@, "Validate"@],
        mp.domain@ == "refactoring"@,
        mp.adaptability == 70,
{
    PSI_MetaProgram {
        id: 2,
        name: "RefactorCode".to_owned(),
        operators: texts4("AnalyzePatterns", "OptimizeQueries", "ApplyRefactor", "Validate"),
        domain: "refactoring".to_owned(),
        adaptability: 70,
    }
}

pub fn create_debug_issue_metaprogram() -> (mp: PSI_MetaProgram)
    ensures
        mp.id == 3,
        mp.name@ == "DebugIssue"@,
        views(mp.operators@) == seq!["AnalyzePatterns"@, "DetectRaceConditions"@, "SuggestFixes"@],
        mp.domain@ == "debugging"@,
        mp.adaptability == 60,
{
    PSI_MetaProgram {
        id: 3,
        name: "DebugIssue".to_owned(),
        operators: texts("AnalyzePatterns", "DetectRaceConditions", "SuggestFixes"),
        domain: "debugging".to_owned(),
        adaptability: 60,
    }
}

pub fn create_translate_code_metaprogram() -> (mp: PSI_MetaProgram)
    ensures
        mp.id == 4,
        mp.name@ == "TranslateCode"@,
        views(mp.operators@) == seq!["ParseAST"@, "MapToLanguageTemplates"@, "EmitCode"@],
        mp.domain@ == "translation"@,
        mp.adaptability == 90,
{
    PSI_MetaProgram {
        id: 4,
        name: "TranslateCode".to_owned(),
        operators: texts("ParseAST", "MapToLanguageTemplates", "EmitCode"),
        domain: "translation".to_owned(),
        adaptability: 90,
    }
}

pub fn create_explain_code_metaprogram() -> (mp: PSI_MetaProgram)
    ensures
        mp.id == 5,
        mp.name@ == "ExplainCode"@,
        views(mp.operators@) == seq!["ParseAST"@, "MapOperators"@, "GenerateExplanation"@],
        mp.domain@ == "explanation"@,
        mp.adaptability == 85,
{
    PSI_MetaProgram {
        id: 5,
        name: "ExplainCode".to_owned(),
        operators: texts("ParseAST", "MapOperators", "GenerateExplanation"),
        domain: "explanation".to_owned(),
        adaptability: 85,
    }
}

/// The four default heuristics: generate, refactor, debug and translate.
pub fn create_default_heuristics() -> (hs: Vec<PSI_Heuristic>)
    ensures
        hs@.len() == 4,
        hs@[0].id == 1 && hs@[0].name@ == "generate_heuristic"@ && hs@[0].trigger_type@ == "request"@ && hs@[0].weight == 90,
        views(hs@[0].preferred_ops@) == seq!["DefineEntities"@, "CreateRoutes"@, "ImplementAuth"@, "WriteTests"@],
        hs@[1].id == 2 && hs@[1].name@ == "refactor_heuristic"@ && hs@[1].trigger_type@ == "request"@ && hs@[1].weight == 85,
        views(hs@[1].preferred_ops@) == seq!["AnalyzePatterns"@, "OptimizeQueries"@, "ApplyRefactor"@, "Validate"@],
        hs@[2].id == 3 && hs@[2].name@ == "debug_heuristic"@ && hs@[2].trigger_type@ == "error"@ && hs@[2].weight == 95,
        views(hs@[2].preferred_ops@) == seq!["AnalyzePatterns"@, "DetectRaceConditions"@, "SuggestFixes"@],
        hs@[3].id == 4 && hs@[3].name@ == "translate_heuristic"@ && hs@[3].trigger_type@ == "request"@ && hs@[3].weight == 80,
        views(hs@[3].preferred_ops@) == seq!["ParseAST"@, "MapToLanguageTemplates"@, "EmitCode"@],
{
    vec![
        PSI_Heuristic {
            id: 1,
            name: "generate_heuristic".to_owned(),
            trigger_type: "request".to_owned(),
            weight: 90,
            preferred_ops: texts4("DefineEntities", "CreateRoutes", "ImplementAuth", "WriteTests"),
        },
        PSI_Heuristic {
            id: 2,
            name: "refactor_heuristic".to_owned(),
            trigger_type: "request".to_owned(),
            weight: 85,
            preferred_ops: texts4("AnalyzePatterns", "OptimizeQueries", "ApplyRefactor", "Validate"),
        },
        PSI_Heuristic {
            id: 3,
            name: "debug_heuristic".to_owned(),
            trigger_type: "error".to_owned(),
            weight: 95,
            preferred_ops: texts("AnalyzePatterns", "DetectRaceConditions", "SuggestFixes"),
        },
        PSI_Heuristic {
            id: 4,
            name: "translate_heuristic".to_owned(),
            trigger_type: "request".to_owned(),
            weight: 80,
            preferred_ops: texts("ParseAST", "MapToLanguageTemplates", "EmitCode"),
        },
    ]
}

// ---------------------------------------------------------------------------
// Scores.

/// The weight a heuristic gives a request for the trigger words of its kind.
pub open spec fn keyword_score(q: Seq<char>, h: PSI_Heuristic) -> int {
    (if (has_infix(q, "generate"@) || has_infix(q, "create"@) || has_infix(q, "new"@))
        && h.name@ == "generate_heuristic"@ { h.weight as int } else { 0int })
    + (if (has_infix(q, "refactor"@) || has_infix(q, "improve"@) || has_infix(q, "optimize"@))
        && h.name@ == "refactor_heuristic"@ { h.weight as int } else { 0int })
    + (if (has_infix(q, "debug"@) || has_infix(q, "fix"@) || has_infix(q, "error"@) || has_infix(q, "issue"@))
        && h.name@ == "debug_heuristic"@ { h.weight as int } else { 0int })
    + (if (has_infix(q, "translate"@) || has_infix(q, "convert"@))
        && h.name@ == "translate_heuristic"@ { h.weight as int } else { 0int })
}

/// Ten for each of `ops` named in the request.
pub open spec fn op_bonus(q: Seq<char>, ops: Seq<Seq<char>>) -> int
    decreases ops.len(),
{
    if ops.len() == 0 {
        0
    } else {
        op_bonus(q, ops.drop_last()) + if has_infix(q, ops.last()) { 10int } else { 0int }
    }
}

/// A heuristic's score for a request.
pub open spec fn heuristic_score(q: Seq<char>, h: PSI_Heuristic) -> int {
    keyword_score(q, h) + op_bonus(q, views(h.preferred_ops@))
}

/// `score` for each of `ops` that `mp_ops` has.
pub open spec fn op_gain(score: int, ops: Seq<Seq<char>>, mp_ops: Seq<Seq<char>>) -> int
    decreases ops.len(),
{
    if ops.len() == 0 {
        0
    } else {
        op_gain(score, ops.drop_last(), mp_ops) + if mp_ops.contains(ops.last()) { score } else { 0int }
    }
}

/// What one heuristic credits to the name `name` over the meta-programs `mps`.
pub open spec fn heuristic_gain(q: Seq<char>, h: PSI_Heuristic, mps: Seq<PSI_MetaProgram>, name: Seq<char>) -> int
    decreases mps.len(),
{
    if mps.len() == 0 {
        0
    } else {
        heuristic_gain(q, h, mps.drop_last(), name) + if heuristic_score(q, h) > 0 && mps.last().name@ == name {
            op_gain(heuristic_score(q, h), views(h.preferred_ops@), views(mps.last().operators@))
        } else {
            0int
        }
    }
}

/// What all heuristics credit to the name `name`.
pub open spec fn total_score(q: Seq<char>, hs: Seq<PSI_Heuristic>, mps: Seq<PSI_MetaProgram>, name: Seq<char>) -> int
    decreases hs.len(),
{
    if hs.len() == 0 {
        0
    } else {
        total_score(q, hs.drop_last(), mps, name) + heuristic_gain(q, hs.last(), mps, name)
    }
}

/// Every score and credit fits in 32 bits.
pub open spec fn heuristic_scores_fit(q: Seq<char>, hs: Seq<PSI_Heuristic>, mps: Seq<PSI_MetaProgram>) -> bool {
    &&& forall|i: int| 0 <= i < hs.len() ==> heuristic_score(q, #[trigger] hs[i]) <= u32::MAX
    &&& forall|j: int| 0 <= j < mps.len() ==> total_score(q, hs, mps, #[trigger] mps[j].name@) <= u32::MAX
}

/// What choosing by the heuristics may give: nothing when no meta-program
/// gets credit; else a copy of the first meta-program of a name whose credit
/// no other name exceeds.
pub open spec fn heuristic_choice(q: Seq<char>, hs: Seq<PSI_Heuristic>, mps: Seq<PSI_MetaProgram>, r: Option<PSI_MetaProgram>) -> bool {
    match r {
        None => forall|j: int| 0 <= j < mps.len() ==> total_score(q, hs, mps, #[trigger] mps[j].name@) == 0,
        Some(m) => exists|j: int| {
            &&& 0 <= j < mps.len()
            &&& same_meta(m, mps[j])
            &&& (forall|k: int| 0 <= k < j ==> (#[trigger] mps[k]).name@ != mps[j].name@)
            &&& total_score(q, hs, mps, mps[j].name@) > 0
            &&& (forall|k: int| 0 <= k < mps.len() ==> total_score(q, hs, mps, (#[trigger] mps[k]).name@) <= total_score(q, hs, mps, mps[j].name@))
        },
    }
}

proof fn lemma_op_bonus_prefix(q: Seq<char>, ops: Seq<Seq<char>>, a: int, b: int)
    requires
        0 <= a <= b <= ops.len(),
    ensures
        0 <= op_bonus(q, ops.take(a)) <= op_bonus(q, ops.take(b)),
    decreases b,
{
    if b == 0 {
        assert(ops.take(0) =~= Seq::<Seq<char>>::empty());
    } else {
        assert(ops.take(b).drop_last() =~= ops.take(b - 1));
        if a == b {
            lemma_op_bonus_prefix(q, ops, a - 1, b - 1);
        } else {
            lemma_op_bonus_prefix(q, ops, a, b - 1);
        }
    }
}

proof fn lemma_op_gain_prefix(score: int, ops: Seq<Seq<char>>, mp_ops: Seq<Seq<char>>, a: int, b: int)
    requires
        0 <= a <= b <= ops.len(),
        score >= 0,
    ensures
        0 <= op_gain(score, ops.take(a), mp_ops) <= op_gain(score, ops.take(b), mp_ops),
    decreases b,
{
    if b == 0 {
        assert(ops.take(0) =~= Seq::<Seq<char>>::empty());
    } else {
        assert(ops.take(b).drop_last() =~= ops.take(b - 1));
        if a == b {
            lemma_op_gain_prefix(score, ops, mp_ops, a - 1, b - 1);
        } else {
            lemma_op_gain_prefix(score, ops, mp_ops, a, b - 1);
        }
    }
}

proof fn lemma_gain_prefix(q: Seq<char>, h: PSI_Heuristic, mps: Seq<PSI_MetaProgram>, name: Seq<char>, a: int, b: int)
    requires
        0 <= a <= b <= mps.len(),
    ensures
        0 <= heuristic_gain(q, h, mps.take(a), name) <= heuristic_gain(q, h, mps.take(b), name),
    decreases b,
{
    if b == 0 {
        assert(mps.take(0) =~= Seq::<PSI_MetaProgram>::empty());
    } else {
        let t = mps.take(b);
        assert(t.drop_last() =~= mps.take(b - 1));
        let s = heuristic_score(q, h);
        if s > 0 {
            let ops = views(h.preferred_ops@);
            lemma_op_gain_prefix(s, ops, views(t.last().operators@), 0, ops.len() as int);
            assert(ops.take(ops.len() as int) =~= ops);
        }
        if a == b {
            lemma_gain_prefix(q, h, mps, name, a - 1, b - 1);
        } else {
            lemma_gain_prefix(q, h, mps, name, a, b - 1);
        }
    }
}

proof fn lemma_total_prefix(q: Seq<char>, hs: Seq<PSI_Heuristic>, mps: Seq<PSI_MetaProgram>, name: Seq<char>, a: int, b: int)
    requires
        0 <= a <= b <= hs.len(),
    ensures
        0 <= total_score(q, hs.take(a), mps, name) <= total_score(q, hs.take(b), mps, name),
    decreases b,
{
    if b == 0 {
        assert(hs.take(0) =~= Seq::<PSI_Heuristic>::empty());
    } else {
        let t = hs.take(b);
        assert(t.drop_last() =~= hs.take(b - 1));
        lemma_gain_prefix(q, t.last(), mps, name, 0, mps.len() as int);
        assert(mps.take(mps.len() as int) =~= mps);
        assert(mps.take(0) =~= Seq::<PSI_MetaProgram>::empty());
        if a == b {
            lemma_total_prefix(q, hs, mps, name, a - 1, b - 1);
        } else {
            lemma_total_prefix(q, hs, mps, name, a, b - 1);
        }
    }
}

proof fn lemma_gain_of_silent(q: Seq<char>, h: PSI_Heuristic, mps: Seq<PSI_MetaProgram>, name: Seq<char>)
    requires
        heuristic_score(q, h) <= 0,
    ensures
        heuristic_gain(q, h, mps, name) == 0,
    decreases mps.len(),
{
    if mps.len() > 0 {
        lemma_gain_of_silent(q, h, mps.drop_last(), name);
    }
}

/// The scores so far: for each meta-program's name, its credit from the
/// heuristics `hs_done` and from `h` over the meta-programs `mps_done`, when
/// positive, and no entry otherwise; and no other entries.
pub open spec fn scores_hold(
    q: Seq<char>,
    hs_done: Seq<PSI_Heuristic>,
    h: PSI_Heuristic,
    mps_done: Seq<PSI_MetaProgram>,
    mps: Seq<PSI_MetaProgram>,
    s: Map<Seq<char>, u32>,
) -> bool {
    &&& forall|n: Seq<char>| #[trigger] s.contains_key(n) ==> exists|j: int| 0 <= j < mps.len() && mps[j].name@ == n
    &&& forall|j: int| 0 <= j < mps.len() ==> (s.contains_key(#[trigger] mps[j].name@) <==>
            total_score(q, hs_done, mps, mps[j].name@) + heuristic_gain(q, h, mps_done, mps[j].name@) > 0)
    &&& forall|j: int| 0 <= j < mps.len() && s.contains_key(#[trigger] mps[j].name@) ==>
            s[mps[j].name@] == total_score(q, hs_done, mps, mps[j].name@) + heuristic_gain(q, h, mps_done, mps[j].name@)
}

/// The credit of each meta-program's name, when positive; no other entries.
pub open spec fn scores_total(q: Seq<char>, hs: Seq<PSI_Heuristic>, mps: Seq<PSI_MetaProgram>, s: Map<Seq<char>, u32>) -> bool {
    &&& forall|n: Seq<char>| #[trigger] s.contains_key(n) ==> exists|j: int| 0 <= j < mps.len() && mps[j].name@ == n
    &&& forall|j: int| 0 <= j < mps.len() ==> (s.contains_key(#[trigger] mps[j].name@) <==> total_score(q, hs, mps, mps[j].name@) > 0)
    &&& forall|j: int| 0 <= j < mps.len() && s.contains_key(#[trigger] mps[j].name@) ==> s[mps[j].name@] == total_score(q, hs, mps, mps[j].name@)
}

/// A heuristic's score for a request, or `None` when it does not fit in 32 bits.
fn score_heuristic(query: &str, heuristic: &PSI_Heuristic) -> (r: Option<u32>)
    ensures
        match r {
            Some(s) => s == heuristic_score(query@, *heuristic),
            None => heuristic_score(query@, *heuristic) > u32::MAX,
        },
{
    let ghost q = query@;
    let ghost h = *heuristic;
    let w: u32 = heuristic.weight as u32;
    let mut score: u32 = 0;
    if str_contains(query, "generate") || str_contains(query, "create") || str_contains(query, "new") {
        if str_eq(heuristic.name.as_str(), "generate_heuristic") {
            score = score + w;
        }
    }
    if str_contains(query, "refactor") || str_contains(query, "improve") || str_contains(query, "optimize") {
        if str_eq(heuristic.name.as_str(), "refactor_heuristic") {
            score = score + w;
        }
    }
    if str_contains(query, "debug") || str_contains(query, "fix") || str_contains(query, "error") || str_contains(query, "issue") {
        if str_eq(heuristic.name.as_str(), "debug_heuristic") {
            score = score + w;
        }
    }
    if str_contains(query, "translate") || str_contains(query, "convert") {
        if str_eq(heuristic.name.as_str(), "translate_heuristic") {
            score = score + w;
        }
    }
    assert(score == keyword_score(q, h));
    let ghost ops = views(heuristic.preferred_ops@);
    let mut k: usize = 0;
    assert(ops.take(0) =~= Seq::<Seq<char>>::empty());
    while k < heuristic.preferred_ops.len()
        invariant
            ops == views(heuristic.preferred_ops@),
            q == query@,
            h == *heuristic,
            k <= ops.len(),
            score == keyword_score(q, h) + op_bonus(q, ops.take(k as int)),
        decreases ops.len() - k,
    {
        assert(ops.take(k + 1).drop_last() =~= ops.take(k as int));
        assert(ops.take(k + 1).last() == heuristic.preferred_ops@[k as int]@);
        if str_contains(query, heuristic.preferred_ops[k].as_str()) {
            match score.checked_add(10) {
                Some(v) => {
                    score = v;
                },
                None => {
                    proof {
                        lemma_op_bonus_prefix(q, ops, k + 1, ops.len() as int);
                        assert(ops.take(ops.len() as int) =~= ops);
                    }
                    return None;
                },
            }
        }
        k += 1;
    }
    assert(ops.take(ops.len() as int) =~= ops);
    Some(score)
}

/// `score` for each of `ops` that `mp_ops` has, or `None` when that does not fit in 32 bits.
fn gain_of(score: u32, ops: &Vec<String>, mp_ops: &Vec<String>) -> (r: Option<u32>)
    ensures
        match r {
            Some(g) => g == op_gain(score as int, views(ops@), views(mp_ops@)),
            None => op_gain(score as int, views(ops@), views(mp_ops@)) > u32::MAX,
        },
{
    let ghost os = views(ops@);
    let ghost ms = views(mp_ops@);
    let mut g: u32 = 0;
    let mut k: usize = 0;
    assert(os.take(0) =~= Seq::<Seq<char>>::empty());
    while k < ops.len()
        invariant
            os == views(ops@),
            ms == views(mp_ops@),
            k <= os.len(),
            g == op_gain(score as int, os.take(k as int), ms),
        decreases os.len() - k,
    {
        assert(os.take(k + 1).drop_last() =~= os.take(k as int));
        assert(os.take(k + 1).last() == ops@[k as int]@);
        if contains_text(mp_ops, ops[k].as_str()) {
            match g.checked_add(score) {
                Some(v) => {
                    g = v;
                },
                None => {
                    proof {
                        lemma_op_gain_prefix(score as int, os, ms, k + 1, os.len() as int);
                        assert(os.take(os.len() as int) =~= os);
                    }
                    return None;
                },
            }
        }
        k += 1;
    }
    assert(os.take(os.len() as int) =~= os);
    Some(g)
}

/// The credit of each meta-program's name, or `None` when some score or
/// credit does not fit in 32 bits.
fn score_meta_programs(query: &str, brain: &PSI_Brain) -> (r: Option<NameMap<u32>>)
    ensures
        match r {
            Some(s) => {
                &&& s.wf()
                &&& heuristic_scores_fit(query@, brain.heuristics@, brain.meta_programs@)
                &&& scores_total(query@, brain.heuristics@, brain.meta_programs@, s@)
            },
            None => !heuristic_scores_fit(query@, brain.heuristics@, brain.meta_programs@),
        },
{
    let ghost q = query@;
    let ghost hs = brain.heuristics@;
    let ghost mps = brain.meta_programs@;
    let mut scores: NameMap<u32> = NameMap::new();
    let mut i: usize = 0;
    assert(hs.take(0) =~= Seq::<PSI_Heuristic>::empty());
    while i < brain.heuristics.len()
        invariant
            hs == brain.heuristics@,
            mps == brain.meta_programs@,
            q == query@,
            i <= hs.len(),
            scores.wf(),
            forall|t: int| 0 <= t < i ==> heuristic_score(q, #[trigger] hs[t]) <= u32::MAX,
            scores_total(q, hs.take(i as int), mps, scores@),
        decreases hs.len() - i,
    {
        let heuristic = &brain.heuristics[i];
        assert(hs.take(i + 1).drop_last() =~= hs.take(i as int));
        assert(hs.take(i + 1).last() == hs[i as int]);
        let score = match score_heuristic(query, heuristic) {
            Some(s) => s,
            None => {
                return None;
            },
        };
        if score > 0 {
            let mut j: usize = 0;
            assert(mps.take(0) =~= Seq::<PSI_MetaProgram>::empty());
            assert(scores_hold(q, hs.take(i as int), hs[i as int], mps.take(0), mps, scores@));
            while j < brain.meta_programs.len()
                invariant
                    hs == brain.heuristics@,
                    mps == brain.meta_programs@,
                    q == query@,
                    i < hs.len(),
                    j <= mps.len(),
                    scores.wf(),
                    score > 0,
                    score == heuristic_score(q, hs[i as int]),
                    forall|t: int| 0 <= t <= i ==> heuristic_score(q, #[trigger] hs[t]) <= u32::MAX,
                    *heuristic == hs[i as int],
                    scores_hold(q, hs.take(i as int), hs[i as int], mps.take(j as int), mps, scores@),
                decreases mps.len() - j,
            {
                let mp = &brain.meta_programs[j];
                let ghost h = hs[i as int];
                assert(mps.take(j + 1).drop_last() =~= mps.take(j as int));
                assert(mps.take(j + 1).last() == mps[j as int]);
                let g = match gain_of(score, &heuristic.preferred_ops, &mp.operators) {
                    Some(g) => g,
                    None => {
                        proof {
                            let n = mps[j as int].name@;
                            lemma_gain_prefix(q, h, mps, n, j + 1, mps.len() as int);
                            assert(mps.take(mps.len() as int) =~= mps);
                            assert(hs.take(i + 1).drop_last() =~= hs.take(i as int));
                            assert(hs.take(i + 1).last() == hs[i as int]);
                            lemma_total_prefix(q, hs, mps, n, i as int, i + 1);
                            lemma_total_prefix(q, hs, mps, n, i + 1, hs.len() as int);
                            assert(hs.take(hs.len() as int) =~= hs);
                            lemma_gain_prefix(q, h, mps, n, 0, j as int);
                            assert(mps.take(0) =~= Seq::<PSI_MetaProgram>::empty());
                            lemma_total_prefix(q, hs, mps, n, 0, i as int);
                        }
                        return None;
                    },
                };
                if g > 0 {
                    let name = mp.name.as_str();
                    let old_value: u32 = match scores.get(name) {
                        Some(v) => *v,
                        None => 0,
                    };
                    proof {
                        let n = mps[j as int].name@;
                        assert(old_value == total_score(q, hs.take(i as int), mps, n) + heuristic_gain(q, h, mps.take(j as int), n)) by {
                            lemma_gain_prefix(q, h, mps, n, 0, j as int);
                            assert(mps.take(0) =~= Seq::<PSI_MetaProgram>::empty());
                            lemma_total_prefix(q, hs, mps, n, 0, i as int);
                            assert(hs.take(0) =~= Seq::<PSI_Heuristic>::empty());
                        }
                    }
                    let sum = match old_value.checked_add(g) {
                        Some(v) => v,
                        None => {
                            proof {
                                let n = mps[j as int].name@;
                                lemma_gain_prefix(q, h, mps, n, j + 1, mps.len() as int);
                                assert(mps.take(mps.len() as int) =~= mps);
                                assert(hs.take(i + 1).drop_last() =~= hs.take(i as int));
                            assert(hs.take(i + 1).last() == hs[i as int]);
                            lemma_total_prefix(q, hs, mps, n, i as int, i + 1);
                                lemma_total_prefix(q, hs, mps, n, i + 1, hs.len() as int);
                                assert(hs.take(hs.len() as int) =~= hs);
                            }
                            return None;
                        },
                    };
                    let ghost before = scores@;
                    scores.insert(mp.name.clone(), sum);
                    proof {
                        let n0 = mps[j as int].name@;
                        assert forall|n: Seq<char>| #[trigger] scores@.contains_key(n) implies exists|t: int| 0 <= t < mps.len() && mps[t].name@ == n by {
                            if n != n0 {
                                assert(before.contains_key(n));
                            }
                        }
                        assert forall|t: int| 0 <= t < mps.len() implies (scores@.contains_key(#[trigger] mps[t].name@) <==>
                            total_score(q, hs.take(i as int), mps, mps[t].name@) + heuristic_gain(q, h, mps.take(j + 1), mps[t].name@) > 0) by {
                            lemma_gain_prefix(q, h, mps, mps[t].name@, 0, j as int);
                            assert(mps.take(0) =~= Seq::<PSI_MetaProgram>::empty());
                            lemma_total_prefix(q, hs, mps, mps[t].name@, 0, i as int);
                            assert(hs.take(0) =~= Seq::<PSI_Heuristic>::empty());
                        }
                    }
                } else {
                    proof {
                        assert forall|t: int| 0 <= t < mps.len() implies heuristic_gain(q, h, mps.take(j + 1), #[trigger] mps[t].name@)
                            == heuristic_gain(q, h, mps.take(j as int), mps[t].name@) by {}
                    }
                }
                j += 1;
            }
            assert(mps.take(mps.len() as int) =~= mps);
            assert(scores_total(q, hs.take(i + 1), mps, scores@));
        } else {
            proof {
                assert forall|n: Seq<char>| total_score(q, hs.take(i + 1), mps, n) == total_score(q, hs.take(i as int), mps, n) by {
                    lemma_gain_of_silent(q, hs[i as int], mps, n);
                }
            }
        }
        i += 1;
    }
    assert(hs.take(hs.len() as int) =~= hs);
    proof {
        assert forall|j: int| 0 <= j < mps.len() implies total_score(q, hs, mps, #[trigger] mps[j].name@) <= u32::MAX by {
            if !scores@.contains_key(mps[j].name@) {
                lemma_total_prefix(q, hs, mps, mps[j].name@, 0, hs.len() as int);
            }
        }
    }
    Some(scores)
}

/// The meta-program the heuristics favour for a (lower-case) request: the
/// first one of a name whose credit no other name exceeds, or none when no
/// meta-program gets any credit.
pub fn apply_heuristics(query: &str, brain: &PSI_Brain) -> (r: Option<PSI_MetaProgram>)
    requires
        heuristic_scores_fit(query@, brain.heuristics@, brain.meta_programs@),
    ensures
        heuristic_choice(query@, brain.heuristics@, brain.meta_programs@, r),
{
    let ghost q = query@;
    let ghost hs = brain.heuristics@;
    let ghost mps = brain.meta_programs@;
    let scores = match score_meta_programs(query, brain) {
        Some(s) => s,
        None => {
            return None;
        },
    };
    let n = scores.len();
    if n == 0 {
        proof {
            assert forall|j: int| 0 <= j < mps.len() implies total_score(q, hs, mps, #[trigger] mps[j].name@) == 0 by {
                assert(!scores@.contains_key(mps[j].name@));
                lemma_total_prefix(q, hs, mps, mps[j].name@, 0, hs.len() as int);
                assert(hs.take(0) =~= Seq::<PSI_Heuristic>::empty());
                assert(hs.take(hs.len() as int) =~= hs);
            }
        }
        return None;
    }
    let mut best: usize = 0;
    let mut i: usize = 1;
    while i < n
        invariant
            n == scores.spec_len(),
            scores.wf(),
            best < i <= n,
            forall|t: int| 0 <= t < i ==> scores.val_seq()[t] <= scores.val_seq()[best as int],
        decreases n - i,
    {
        if *scores.val_at(i) >= *scores.val_at(best) {
            best = i;
        }
        i += 1;
    }
    let name = scores.key_at(best);
    let mut j: usize = 0;
    while j < brain.meta_programs.len()
        invariant
            mps == brain.meta_programs@,
            hs == brain.heuristics@,
            q == query@,
            j <= mps.len(),
            forall|k: int| 0 <= k < j ==> mps[k].name@ != name@,
            scores.wf(),
            n == scores.spec_len(),
            best < n,
            name@ == scores.key_seq()[best as int],
            scores@.contains_key(name@),
            scores@[name@] == scores.val_seq()[best as int],
            forall|t: int| 0 <= t < n ==> scores.val_seq()[t] <= scores.val_seq()[best as int],
            scores_total(q, hs, mps, scores@),
        decreases mps.len() - j,
    {
        if str_eq(brain.meta_programs[j].name.as_str(), name.as_str()) {
            let m = brain.meta_programs[j].duplicate();
            proof {
                let top = total_score(q, hs, mps, name@);
                assert(scores@.contains_key(mps[j as int].name@));
                assert forall|k: int| 0 <= k < mps.len() implies total_score(q, hs, mps, (#[trigger] mps[k]).name@) <= top by {
                    let nk = mps[k].name@;
                    if scores@.contains_key(nk) {
                        let t = scores.key_seq().index_of(nk);
                        assert(scores.key_seq().contains(nk));
                        assert(scores@[nk] == scores.val_seq()[t]);
                    }
                }
                assert(same_meta(m, mps[j as int]));
            }
            return Some(m);
        }
        j += 1;
    }
    proof {
        let k = choose|k: int| 0 <= k < mps.len() && mps[k].name@ == name@;
        assert(mps[k].name@ != name@);
    }
    None
}

/// Whether a meta-program is named, by its name or one of its operators'
/// names (all in lower case), in a lower-case request.
pub open spec fn direct_match(q: Seq<char>, m: PSI_MetaProgram) -> bool {
    has_infix(q, lowercase(m.name@))
        || exists|k: int| 0 <= k < m.operators@.len() && has_infix(q, lowercase(#[trigger] m.operators@[k]@))
}

/// What choosing for the lower-case request `q` gives: a copy of the first
/// meta-program it names, or else what the heuristics favour.
pub open spec fn chosen(q: Seq<char>, hs: Seq<PSI_Heuristic>, mps: Seq<PSI_MetaProgram>, r: Option<PSI_MetaProgram>) -> bool {
    if exists|i: int| 0 <= i < mps.len() && direct_match(q, #[trigger] mps[i]) {
        exists|i: int| {
            &&& 0 <= i < mps.len()
            &&& direct_match(q, mps[i])
            &&& (forall|k: int| 0 <= k < i ==> !direct_match(q, #[trigger] mps[k]))
            &&& r is Some
            &&& same_meta(r->0, mps[i])
        }
    } else {
        heuristic_choice(q, hs, mps, r)
    }
}

/// The first meta-program that a lower-case request names, if any.
fn find_direct(lower_query: &str, brain: &PSI_Brain) -> (r: Option<usize>)
    ensures
        match r {
            Some(i) => {
                &&& i < brain.meta_programs@.len()
                &&& direct_match(lower_query@, brain.meta_programs@[i as int])
                &&& forall|k: int| 0 <= k < i ==> !direct_match(lower_query@, #[trigger] brain.meta_programs@[k])
            },
            None => forall|k: int| 0 <= k < brain.meta_programs@.len() ==> !direct_match(lower_query@, #[trigger] brain.meta_programs@[k]),
        },
{
    let ghost q = lower_query@;
    let ghost mps = brain.meta_programs@;
    let mut i: usize = 0;
    while i < brain.meta_programs.len()
        invariant
            q == lower_query@,
            mps == brain.meta_programs@,
            i <= mps.len(),
            forall|k: int| 0 <= k < i ==> !direct_match(q, #[trigger] mps[k]),
        decreases mps.len() - i,
    {
        let mp = &brain.meta_programs[i];
        let lname = to_lowercase(mp.name.as_str());
        if str_contains(lower_query, lname.as_str()) {
            return Some(i);
        }
        let mut k: usize = 0;
        while k < mp.operators.len()
            invariant
                q == lower_query@,
                mps == brain.meta_programs@,
                i < mps.len(),
                *mp == mps[i as int],
                forall|t: int| 0 <= t < i ==> !direct_match(q, #[trigger] mps[t]),
                k <= mp.operators@.len(),
                forall|t: int| 0 <= t < k ==> !has_infix(q, lowercase(#[trigger] mp.operators@[t]@)),
            decreases mp.operators@.len() - k,
        {
            let lop = to_lowercase(mp.operators[k].as_str());
            if str_contains(lower_query, lop.as_str()) {
                assert(direct_match(q, mps[i as int]));
                return Some(i);
            }
            k += 1;
        }
        i += 1;
    }
    None
}

/// The meta-program for a request: the first one the request names (in
/// lower case), or else the one the heuristics favour.
pub fn select_metaprogram(query: &str, brain: &PSI_Brain) -> (r: Option<PSI_MetaProgram>)
    requires
        (forall|k: int| 0 <= k < brain.meta_programs@.len() ==> !direct_match(lowercase(query@), #[trigger] brain.meta_programs@[k]))
            ==> heuristic_scores_fit(lowercase(query@), brain.heuristics@, brain.meta_programs@),
    ensures
        chosen(lowercase(query@), brain.heuristics@, brain.meta_programs@, r),
{
    let lower_query = to_lowercase(query);
    match find_direct(lower_query.as_str(), brain) {
        Some(i) => {
            let m = brain.meta_programs[i].duplicate();
            assert(direct_match(lower_query@, brain.meta_programs@[i as int]));
            Some(m)
        },
        None => apply_heuristics(lower_query.as_str(), brain),
    }
}

/// The meta-program for a request as `select_metaprogram` chooses it, or
/// `None` when the request names no meta-program and some score or credit
/// of the heuristics does not fit in 32 bits.
pub fn select_metaprogram_checked(query: &str, brain: &PSI_Brain) -> (r: Option<Option<PSI_MetaProgram>>)
    ensures
        match r {
            Some(c) => chosen(lowercase(query@), brain.heuristics@, brain.meta_programs@, c),
            None => {
                &&& forall|k: int| 0 <= k < brain.meta_programs@.len() ==> !direct_match(lowercase(query@), #[trigger] brain.meta_programs@[k])
                &&& !heuristic_scores_fit(lowercase(query@), brain.heuristics@, brain.meta_programs@)
            },
        },
{
    let lower_query = to_lowercase(query);
    match find_direct(lower_query.as_str(), brain) {
        Some(_) => Some(select_metaprogram(query, brain)),
        None => match score_meta_programs(lower_query.as_str(), brain) {
            Some(_) => Some(select_metaprogram(query, brain)),
            None => None,
        },
    }
}

} // verus!
