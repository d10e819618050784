//! Matching of text patterns with variable bindings.
use vstd::prelude::*;
use crate::maps::{NameMap, views};
use crate::rule_engine::types::{RuleExecutionInfo, RuleMatch};
use crate::text::{str_eq, split_on, split_text};

verus! {

/// A pattern over texts.
#[derive(Debug)]
pub enum Pattern {
    Value(String),
    /// a variable that matches any text
    Variable(String),
    /// a structured pattern such as `(entity.field value)`
    Composite(String, Vec<Pattern>),
}

/// The content of a pattern.
pub enum TextPatternV {
    Value(Seq<char>),
    Variable(Seq<char>),
    Composite(Seq<char>, Seq<TextPatternV>),
}

pub open spec fn pattern_v(p: Pattern) -> TextPatternV
    decreases p,
{
    match p {
        Pattern::Value(v) => TextPatternV::Value(v@),
        Pattern::Variable(n) => TextPatternV::Variable(n@),
        Pattern::Composite(n, parts) => TextPatternV::Composite(n@, patterns_v(parts@)),
    }
}

pub open spec fn patterns_v(s: Seq<Pattern>) -> Seq<TextPatternV>
    decreases s,
{
    if s.len() == 0 {
        Seq::empty()
    } else {
        patterns_v(s.subrange(0, s.len() - 1)).push(pattern_v(s[s.len() - 1]))
    }
}

impl Pattern {
    /// A copy of the pattern, with the same content.
    pub fn deep_copy(&self) -> (r: Pattern)
        ensures
            pattern_v(r) == pattern_v(*self),
        decreases self,
    {
        match self {
            Pattern::Value(v) => Pattern::Value(v.clone()),
            Pattern::Variable(n) => Pattern::Variable(n.clone()),
            Pattern::Composite(name, parts) => {
                let mut out: Vec<Pattern> = Vec::new();
                let mut i: usize = 0;
                assert(parts@.subrange(0, 0) =~= Seq::<Pattern>::empty());
                assert(out@ =~= Seq::<Pattern>::empty());
                while i < parts.len()
                    invariant
                        *self == Pattern::Composite(*name, *parts),
                        i <= parts.len(),
                        patterns_v(out@) == patterns_v(parts@.subrange(0, i as int)),
                    decreases parts.len() - i,
                {
                    proof {
                        assert(decreases_to!(*parts => parts[i as int]));
                        assert(decreases_to!(*self => (*self)->Composite_1));
                        assert(decreases_to!(*self => parts[i as int]));
                    }
                    let c = parts[i].deep_copy();
                    let ghost before = out@;
                    out.push(c);
                    proof {
                        assert(out@.subrange(0, out@.len() - 1) =~= before);
                        assert(parts@.subrange(0, i + 1).subrange(0, i as int) =~= parts@.subrange(0, i as int));
                    }
                    i += 1;
                }
                assert(parts@.subrange(0, parts@.len() as int) =~= parts@);
                Pattern::Composite(name.clone(), out)
            },
        }
    }
}

impl Clone for Pattern {
    fn clone(&self) -> Self {
        self.deep_copy()
    }
}

pub type TextBindings = Map<Seq<char>, Seq<char>>;

/// The contents of a table of text bindings.
pub open spec fn text_view(m: Map<Seq<char>, String>) -> TextBindings {
    m.map_values(|s: String| s@)
}

/// The text of the first part of a composite pattern, when it is a value pattern.
pub open spec fn first_text(parts: Seq<Pattern>) -> Option<Seq<char>> {
    if parts.len() > 0 {
        match parts[0] {
            Pattern::Value(e) => Some(e@),
            _ => None,
        }
    } else {
        None
    }
}

/// The bindings after matching `p` against the text `v` starting from `b`, or
/// `None`. A value pattern matches an equal text; a variable matches what it is
/// bound to, or binds an unbound name; `entity.field` and `entity` match the text
/// of their first part; `entity.fields` splits the text at commas and matches as
/// many parts, one piece each, the bindings flowing from part to part. The extended
/// form also accepts any text for `any` and `type.str`.
pub open spec fn match_text(p: Pattern, v: Seq<char>, b: TextBindings, extended: bool) -> Option<TextBindings>
    decreases p, 1nat,
{
    match p {
        Pattern::Value(e) => if e@ == v { Some(b) } else { None },
        Pattern::Variable(n) => {
            if b.contains_key(n@) {
                if b[n@] == v { Some(b) } else { None }
            } else {
                Some(b.insert(n@, v))
            }
        },
        Pattern::Composite(name, parts) => {
            if name@ == "entity.field"@ || name@ == "entity"@ {
                if first_text(parts@) == Some(v) { Some(b) } else { None }
            } else if name@ == "entity.fields"@ {
                let pieces = split_on(v, ',');
                if parts@.len() == pieces.len() {
                    proof {
                        assert(decreases_to!(p => p->Composite_1));
                    }
                    match_text_parts(parts@, pieces, b, extended)
                } else {
                    None
                }
            } else if extended && (name@ == "any"@ || name@ == "type.str"@) {
                Some(b)
            } else {
                None
            }
        },
    }
}

/// A variable already bound matches exactly the text it is bound to, and
/// then leaves the bindings as they were; an unbound variable matches any
/// text and binds its name to it. Either way, in both forms of matching.
pub proof fn law_text_variable_binding(n: String, v: Seq<char>, b: TextBindings, extended: bool)
    ensures
        b.contains_key(n@) ==> (match_text(Pattern::Variable(n), v, b, extended) is Some <==> b[n@] == v),
        b.contains_key(n@) && b[n@] != v ==> match_text(Pattern::Variable(n), v, b, extended) is None,
        b.contains_key(n@) && b[n@] == v ==> match_text(Pattern::Variable(n), v, b, extended) == Some(b),
        !b.contains_key(n@) ==> match_text(Pattern::Variable(n), v, b, extended) == Some(b.insert(n@, v)),
{
}

/// Matching parts against texts in order, threading the bindings.
pub open spec fn match_text_parts(ps: Seq<Pattern>, vs: Seq<Seq<char>>, b: TextBindings, extended: bool) -> Option<TextBindings>
    decreases ps, 0nat,
{
    if ps.len() == 0 {
        Some(b)
    } else {
        match match_text(ps[0], vs[0], b, extended) {
            Some(b2) => {
                proof {
                    assert(decreases_to!(ps => ps.subrange(1, ps.len() as int)));
                }
                match_text_parts(ps.subrange(1, ps.len() as int), vs.subrange(1, vs.len() as int), b2, extended)
            },
            None => None,
        }
    }
}

/// What the basic form matches, the extended form matches with the same bindings.
pub proof fn lemma_extended_keeps_text_match(p: Pattern, v: Seq<char>, b: TextBindings)
    ensures
        match_text(p, v, b, false) is Some ==> match_text(p, v, b, true) == match_text(p, v, b, false),
    decreases p, 1nat,
{
    match p {
        Pattern::Composite(name, parts) => {
            if !(name@ == "entity.field"@ || name@ == "entity"@) && name@ == "entity.fields"@ {
                let pieces = split_on(v, ',');
                if parts@.len() == pieces.len() {
                    assert(decreases_to!(p => p->Composite_1));
                    lemma_extended_keeps_text_parts(parts@, pieces, b);
                }
            }
        },
        _ => {},
    }
}

pub proof fn lemma_extended_keeps_text_parts(ps: Seq<Pattern>, vs: Seq<Seq<char>>, b: TextBindings)
    ensures
        match_text_parts(ps, vs, b, false) is Some ==> match_text_parts(ps, vs, b, true) == match_text_parts(ps, vs, b, false),
    decreases ps, 0nat,
{
    if ps.len() > 0 {
        lemma_extended_keeps_text_match(ps[0], vs[0], b);
        match match_text(ps[0], vs[0], b, false) {
            Some(b2) => {
                assert(decreases_to!(ps => ps.subrange(1, ps.len() as int)));
                lemma_extended_keeps_text_parts(ps.subrange(1, ps.len() as int), vs.subrange(1, vs.len() as int), b2);
            },
            None => {},
        }
    }
}

/// The complex matcher of texts accepts every match of the basic one, with the
/// same bindings.
pub proof fn law_complex_text_match_extends_basic(p: Pattern, v: Seq<char>)
    ensures
        match_text(p, v, Map::empty(), false) matches Some(b) ==> match_text(p, v, Map::empty(), true) == Some(b),
{
    lemma_extended_keeps_text_match(p, v, Map::empty());
}

/// Matching a list of patterns against as many texts, one after the other, the
/// bindings accumulating; the bindings after each step, or `None` at the first failure.
pub open spec fn match_each_text(ps: Seq<Pattern>, vs: Seq<Seq<char>>, b: TextBindings) -> Option<Seq<TextBindings>>
    decreases ps.len(),
{
    if ps.len() == 0 {
        Some(Seq::empty())
    } else {
        match match_text(ps[0], vs[0], b, false) {
            Some(b2) => match match_each_text(ps.drop_first(), vs.drop_first(), b2) {
                Some(rest) => Some(seq![b2] + rest),
                None => None,
            },
            None => None,
        }
    }
}

/// An identical copy of a table of text bindings.
pub fn copy_bindings(m: &NameMap<String>) -> (r: NameMap<String>)
    requires
        m.wf(),
    ensures
        r.wf(),
        r@ == m@,
{
    let r = m.duplicate();
    assert(r@ =~= m@);
    r
}

pub struct PatternMatcher {
    pub patterns: Vec<Pattern>,
}

impl PatternMatcher {
    pub fn new() -> (m: Self)
        ensures
            m.patterns@ == Seq::<Pattern>::empty(),
    {
        PatternMatcher { patterns: Vec::new() }
    }

    /// The bindings of a match of `pattern` against `value`, if it matches.
    pub fn match_pattern(&self, pattern: &Pattern, value: &str) -> (r: Option<NameMap<String>>)
        ensures
            match r {
                Some(b) => b.wf() && match_text(*pattern, value@, Map::empty(), false) == Some(text_view(b@)),
                None => match_text(*pattern, value@, Map::empty(), false) is None,
            },
    {
        let mut bindings: NameMap<String> = NameMap::new();
        assert(text_view(bindings@) =~= Map::empty());
        if Self::match_pattern_with_bindings(pattern, value, &mut bindings, false) {
            Some(bindings)
        } else {
            None
        }
    }

    /// Matches `pattern` against `value`, extending `bindings`; on success
    /// `bindings` holds the bindings of the match.
    fn match_pattern_with_bindings(pattern: &Pattern, value: &str, bindings: &mut NameMap<String>, extended: bool) -> (r: bool)
        requires
            old(bindings).wf(),
        ensures
            final(bindings).wf(),
            r == match_text(*pattern, value@, text_view(old(bindings)@), extended) is Some,
            r ==> match_text(*pattern, value@, text_view(old(bindings)@), extended) == Some(text_view(final(bindings)@)),
        decreases pattern,
    {
        match pattern {
            Pattern::Value(expected) => str_eq(expected.as_str(), value),
            Pattern::Variable(var_name) => {
                match bindings.get(var_name.as_str()) {
                    Some(bound) => str_eq(bound.as_str(), value),
                    None => {
                        let ghost before = bindings@;
                        bindings.insert(var_name.clone(), value.to_owned());
                        proof {
                            assert(text_view(bindings@) =~= text_view(before).insert(var_name@, value@));
                        }
                        true
                    },
                }
            },
            Pattern::Composite(name, parts) => {
                if str_eq(name.as_str(), "entity.field") || str_eq(name.as_str(), "entity") {
                    if parts.len() > 0 {
                        match &parts[0] {
                            Pattern::Value(expected) => str_eq(value, expected.as_str()),
                            _ => false,
                        }
                    } else {
                        false
                    }
                } else if str_eq(name.as_str(), "entity.fields") {
                    let pieces = split_text(value, ',');
                    if parts.len() != pieces.len() {
                        return false;
                    }
                    let ghost b0 = text_view(bindings@);
                    proof {
                        assert(parts@.skip(0) =~= parts@);
                        assert(views(pieces@).skip(0) =~= views(pieces@));
                    }
                    let mut i: usize = 0;
                    while i < parts.len()
                        invariant
                            *pattern == Pattern::Composite(*name, *parts),
                            b0 == text_view(old(bindings)@),
                            views(pieces@) == split_on(value@, ','),
                            bindings.wf(),
                            parts.len() == pieces.len(),
                            i <= parts.len(),
                            match_text(*pattern, value@, b0, extended)
                                == match_text_parts(parts@.skip(i as int), views(pieces@).skip(i as int), text_view(bindings@), extended),
                        decreases parts.len() - i,
                    {
                        let ghost bb = text_view(bindings@);
                        let ghost ps = parts@.skip(i as int);
                        let ghost vs = views(pieces@).skip(i as int);
                        proof {
                            assert(decreases_to!(*parts => parts[i as int]));
                            assert(decreases_to!(*pattern => (*pattern)->Composite_1));
                            assert(decreases_to!(*pattern => parts[i as int]));
                            assert(ps[0] == parts@[i as int]);
                            assert(vs[0] == pieces@[i as int]@);
                            assert(ps.subrange(1, ps.len() as int) =~= parts@.skip(i + 1));
                            assert(vs.subrange(1, vs.len() as int) =~= views(pieces@).skip(i + 1));
                        }
                        if !Self::match_pattern_with_bindings(&parts[i], pieces[i].as_str(), bindings, extended) {
                            assert(match_text(ps[0], vs[0], bb, extended) is None);
                            return false;
                        }
                        i += 1;
                    }
                    true
                } else if extended && (str_eq(name.as_str(), "any") || str_eq(name.as_str(), "type.str")) {
                    true
                } else {
                    false
                }
            },
        }
    }

    /// The match of a rule against the execution graph: every rule matches, with no bindings.
    pub fn match_graph_pattern(&self, pattern: &Pattern, rule_info: &RuleExecutionInfo) -> (r: Option<RuleMatch>)
        ensures
            r matches Some(m) && m.rule_id == rule_info.rule_id && m.bindings.wf() && m.bindings@ == Map::<Seq<char>, crate::rule_engine::types::Value>::empty(),
    {
        Some(RuleMatch { rule_id: rule_info.rule_id, bindings: NameMap::new() })
    }

    /// The bindings of a match in the extended form, if it matches.
    pub fn match_complex_pattern(&self, pattern: &Pattern, value: &str) -> (r: Option<NameMap<String>>)
        ensures
            match r {
                Some(b) => b.wf() && match_text(*pattern, value@, Map::empty(), true) == Some(text_view(b@)),
                None => match_text(*pattern, value@, Map::empty(), true) is None,
            },
    {
        let mut bindings: NameMap<String> = NameMap::new();
        assert(text_view(bindings@) =~= Map::empty());
        if Self::match_pattern_with_bindings(pattern, value, &mut bindings, true) {
            Some(bindings)
        } else {
            None
        }
    }

    /// Matches patterns against as many values in turn, bindings accumulating;
    /// the bindings after each step, or `None` on a length mismatch or a failure.
    pub fn match_multiple_patterns(&self, patterns: &[Pattern], values: &[String]) -> (r: Option<Vec<NameMap<String>>>)
        ensures
            patterns@.len() != values@.len() ==> r is None,
            patterns@.len() == values@.len() ==> match r {
                Some(v) => (forall|i: int| 0 <= i < v@.len() ==> (#[trigger] v@[i]).wf())
                    && match_each_text(patterns@, views(values@), Map::empty()) == Some(v@.map_values(|m: NameMap<String>| text_view(m@))),
                None => match_each_text(patterns@, views(values@), Map::empty()) is None,
            },
    {
        if patterns.len() != values.len() {
            return None;
        }
        let mut all: Vec<NameMap<String>> = Vec::new();
        let mut global: NameMap<String> = NameMap::new();
        let ghost vs_all = views(values@);
        proof {
            assert(text_view(global@) =~= Map::empty());
            assert(patterns@.skip(0) =~= patterns@);
            assert(vs_all.skip(0) =~= vs_all);
        }
        let mut i: usize = 0;
        while i < patterns.len()
            invariant
                patterns@.len() == values@.len(),
                vs_all == views(values@),
                i <= patterns@.len(),
                global.wf(),
                all@.len() == i,
                forall|j: int| 0 <= j < all@.len() ==> (#[trigger] all@[j]).wf(),
                match_each_text(patterns@, vs_all, Map::empty()) == match match_each_text(patterns@.skip(i as int), vs_all.skip(i as int), text_view(global@)) {
                    Some(rest) => Some(all@.map_values(|m: NameMap<String>| text_view(m@)) + rest),
                    None => None::<Seq<TextBindings>>,
                },
            decreases patterns@.len() - i,
        {
            let ghost ps = patterns@.skip(i as int);
            let ghost vs = vs_all.skip(i as int);
            let ghost g = text_view(global@);
            proof {
                assert(ps[0] == patterns@[i as int]);
                assert(vs[0] == values@[i as int]@);
                assert(ps.drop_first() =~= patterns@.skip(i + 1));
                assert(vs.drop_first() =~= vs_all.skip(i + 1));
            }
            let mut local = copy_bindings(&global);
            if Self::match_pattern_with_bindings(&patterns[i], values[i].as_str(), &mut local, false) {
                global = local;
                let snapshot = copy_bindings(&global);
                let ghost before = all@.map_values(|m: NameMap<String>| text_view(m@));
                all.push(snapshot);
                proof {
                    assert(all@.map_values(|m: NameMap<String>| text_view(m@)) =~= before.push(text_view(global@)));
                    let b2 = text_view(global@);
                    match match_each_text(ps.drop_first(), vs.drop_first(), b2) {
                        Some(rest) => {
                            assert(before + (seq![b2] + rest) =~= before.push(b2) + rest);
                        },
                        None => {},
                    }
                }
            } else {
                return None;
            }
            i += 1;
        }
        proof {
            assert(patterns@.skip(i as int).len() == 0);
            assert(all@.map_values(|m: NameMap<String>| text_view(m@)) + Seq::<TextBindings>::empty() =~= all@.map_values(|m: NameMap<String>| text_view(m@)));
        }
        Some(all)
    }
}

} // verus!
