//! Matching of value patterns with variable bindings.
use vstd::prelude::*;
use crate::maps::NameMap;
use crate::rule_engine::types::{Pattern, Value, ValueV, value_views, lemma_value_views, value_eq, binding_view};
use crate::text::str_eq;

verus! {

pub type Bindings = Map<Seq<char>, ValueV>;

/// The symbol text of the first part of a composite pattern, when it is a symbol value.
pub open spec fn first_symbol(parts: Seq<Pattern>) -> Option<Seq<char>> {
    if parts.len() > 0 {
        match parts[0] {
            Pattern::Value(Value::Sym(e)) => Some(e@),
            _ => None,
        }
    } else {
        None
    }
}

/// Whether `name` is a type pattern that `v` satisfies.
pub open spec fn type_pattern_holds(name: Seq<char>, v: ValueV) -> bool {
    ||| (name == "type.sym"@ && v is Sym)
    ||| (name == "type.num"@ && v is Num)
    ||| (name == "type.bool"@ && v is Bool)
    ||| (name == "type.vec"@ && v is List)
    ||| (name == "type.ref"@ && v is Ref)
}

/// The bindings after matching `p` against `v` starting from `b`, or `None` when it
/// does not match. A value pattern matches an equal value; a variable matches what
/// it is bound to, or binds an unbound name; `entity.field` and `entity` match a
/// symbol equal to their first part's symbol; `entity.fields` matches a list of as
/// many values, part by part, the bindings flowing from each part to the next. The
/// extended form (`extended`) also matches lists with `vec`, anything with `any`,
/// and a value of the named kind with `type.sym`, `type.num`, `type.bool`,
/// `type.vec` and `type.ref`.
pub open spec fn match_value(p: Pattern, v: ValueV, b: Bindings, extended: bool) -> Option<Bindings>
    decreases p, 1nat,
{
    match p {
        Pattern::Value(e) => if e@ == v { Some(b) } else { None },
        Pattern::Variable(n) => {
            if b.contains_key(n@) {
                if b[n@] == v { Some(b) } else { None }
            } else {
                Some(b.insert(n@, v))
            }
        },
        Pattern::Composite(name, parts) => {
            if name@ == "entity.field"@ || name@ == "entity"@ {
                match v {
                    ValueV::Sym(fv) => if first_symbol(parts@) == Some(fv) { Some(b) } else { None },
                    _ => None,
                }
            } else if name@ == "entity.fields"@ || (extended && name@ == "vec"@) {
                match v {
                    ValueV::List(items) => {
                        if parts@.len() == items.len() {
                            proof {
                                assert(decreases_to!(p => p->Composite_1));
                            }
                            match_parts(parts@, items, b, extended)
                        } else {
                            None
                        }
                    },
                    _ => None,
                }
            } else if extended && name@ == "any"@ {
                Some(b)
            } else if extended && type_pattern_holds(name@, v) {
                Some(b)
            } else {
                None
            }
        },
    }
}

/// Matching parts against values in order, threading the bindings.
pub open spec fn match_parts(ps: Seq<Pattern>, vs: Seq<ValueV>, b: Bindings, extended: bool) -> Option<Bindings>
    decreases ps, 0nat,
{
    if ps.len() == 0 {
        Some(b)
    } else {
        match match_value(ps[0], vs[0], b, extended) {
            Some(b2) => {
                proof {
                    assert(decreases_to!(ps => ps.subrange(1, ps.len() as int)));
                }
                match_parts(ps.subrange(1, ps.len() as int), vs.subrange(1, vs.len() as int), b2, extended)
            },
            None => None,
        }
    }
}

/// What the basic form matches, the extended form matches with the same bindings.
pub proof fn lemma_extended_keeps_value_match(p: Pattern, v: ValueV, b: Bindings)
    ensures
        match_value(p, v, b, false) is Some ==> match_value(p, v, b, true) == match_value(p, v, b, false),
    decreases p, 1nat,
{
    match p {
        Pattern::Composite(name, parts) => {
            if !(name@ == "entity.field"@ || name@ == "entity"@) && name@ == "entity.fields"@ {
                match v {
                    ValueV::List(items) => {
                        if parts@.len() == items.len() {
                            assert(decreases_to!(p => p->Composite_1));
                            lemma_extended_keeps_parts_match(parts@, items, b);
                        }
                    },
                    _ => {},
                }
            }
        },
        _ => {},
    }
}

pub proof fn lemma_extended_keeps_parts_match(ps: Seq<Pattern>, vs: Seq<ValueV>, b: Bindings)
    ensures
        match_parts(ps, vs, b, false) is Some ==> match_parts(ps, vs, b, true) == match_parts(ps, vs, b, false),
    decreases ps, 0nat,
{
    if ps.len() > 0 {
        lemma_extended_keeps_value_match(ps[0], vs[0], b);
        match match_value(ps[0], vs[0], b, false) {
            Some(b2) => {
                assert(decreases_to!(ps => ps.subrange(1, ps.len() as int)));
                lemma_extended_keeps_parts_match(ps.subrange(1, ps.len() as int), vs.subrange(1, vs.len() as int), b2);
            },
            None => {},
        }
    }
}

/// The extended matcher accepts every match of the basic one, with the same
/// bindings: what `match_pattern` answers `Some` for, `match_complex_pattern`
/// answers with the same bindings.
pub proof fn law_complex_match_extends_basic(p: Pattern, v: ValueV)
    ensures
        match_value(p, v, Map::empty(), false) matches Some(b) ==> match_value(p, v, Map::empty(), true) == Some(b),
{
    lemma_extended_keeps_value_match(p, v, Map::empty());
}

/// A variable already bound matches exactly the value it is bound to, and
/// then leaves the bindings as they were; an unbound variable matches any
/// value and binds its name to it. Either way, in both forms of matching.
pub proof fn law_variable_binding(n: String, v: ValueV, b: Bindings, extended: bool)
    ensures
        b.contains_key(n@) ==> (match_value(Pattern::Variable(n), v, b, extended) is Some <==> b[n@] == v),
        b.contains_key(n@) && b[n@] != v ==> match_value(Pattern::Variable(n), v, b, extended) is None,
        b.contains_key(n@) && b[n@] == v ==> match_value(Pattern::Variable(n), v, b, extended) == Some(b),
        !b.contains_key(n@) ==> match_value(Pattern::Variable(n), v, b, extended) == Some(b.insert(n@, v)),
{
}

/// A name used twice in a list pattern must meet equal values: the list
/// pattern `[x, x]` matches a list of two values, starting from no
/// bindings, exactly when the two values are equal, and then binds `x` to
/// that value.
pub proof fn law_repeated_variable_needs_equal_values(name: String, parts: Vec<Pattern>, n: String, v1: ValueV, v2: ValueV, extended: bool)
    requires
        name@ == "entity.fields"@ || (extended && name@ == "vec"@),
        parts@ == seq![Pattern::Variable(n), Pattern::Variable(n)],
    ensures
        match_value(Pattern::Composite(name, parts), ValueV::List(seq![v1, v2]), Map::empty(), extended) is Some <==> v1 == v2,
        v1 == v2 ==> match_value(Pattern::Composite(name, parts), ValueV::List(seq![v1, v2]), Map::empty(), extended)
            == Some(Map::<Seq<char>, ValueV>::empty().insert(n@, v1)),
{
    reveal_strlit("entity.fields");
    reveal_strlit("entity.field");
    reveal_strlit("entity");
    reveal_strlit("vec");
    assert("entity.field"@.len() == 12 && "entity"@.len() == 6);
    assert("entity.fields"@.len() == 13 && "vec"@.len() == 3);
    assert(name@.len() != 12 && name@.len() != 6);
    assert(name@ != "entity.field"@ && name@ != "entity"@);
    let ps = parts@;
    let vs = seq![v1, v2];
    let b1 = Map::<Seq<char>, ValueV>::empty().insert(n@, v1);
    assert(match_value(ps[0], vs[0], Map::empty(), extended) == Some(b1));
    assert(ps.subrange(1, 2) =~= seq![Pattern::Variable(n)]);
    assert(vs.subrange(1, 2) =~= seq![v2]);
    let ps1 = ps.subrange(1, 2);
    let vs1 = vs.subrange(1, 2);
    assert(b1.contains_key(n@) && b1[n@] == v1);
    assert(match_value(ps1[0], vs1[0], b1, extended) == if v1 == v2 { Some(b1) } else { None });
    assert(ps1.subrange(1, 1) =~= Seq::<Pattern>::empty());
    assert(match_parts(ps1.subrange(1, 1), vs1.subrange(1, 1), b1, extended) == Some(b1));
    assert(match_parts(ps1, vs1, b1, extended) == if v1 == v2 { Some(b1) } else { None });
    assert(match_parts(ps, vs, Map::empty(), extended) == if v1 == v2 { Some(b1) } else { None });
    assert(match_value(Pattern::Composite(name, parts), ValueV::List(vs), Map::empty(), extended)
        == match_parts(ps, vs, Map::empty(), extended));
}

/// The patterns that bind nothing. A value pattern matches exactly an equal
/// value. `entity.field` and `entity` match exactly a symbol equal to the
/// symbol their first part holds. In the extended form `any` matches every
/// value, and `type.sym`, `type.num`, `type.bool`, `type.vec` and
/// `type.ref` match exactly the values of that kind; the basic form matches
/// none of these. A list pattern never matches a list of another length.
/// Whatever of these matches leaves the bindings as they were.
pub proof fn law_patterns_without_variables(e: Value, name: String, parts: Vec<Pattern>, v: ValueV, b: Bindings, extended: bool)
    ensures
        match_value(Pattern::Value(e), v, b, extended) is Some <==> e@ == v,
        match_value(Pattern::Value(e), v, b, extended) is Some ==> match_value(Pattern::Value(e), v, b, extended) == Some(b),
        (name@ == "entity.field"@ || name@ == "entity"@) ==> (
            (match_value(Pattern::Composite(name, parts), v, b, extended) is Some
                <==> (parts@.len() > 0 && (parts@[0] matches Pattern::Value(Value::Sym(sym)) && v == ValueV::Sym(sym@))))
            && (match_value(Pattern::Composite(name, parts), v, b, extended) is Some
                ==> match_value(Pattern::Composite(name, parts), v, b, extended) == Some(b))),
        name@ == "any"@ ==> match_value(Pattern::Composite(name, parts), v, b, extended) == if extended { Some(b) } else { None },
        name@ == "type.num"@ ==> match_value(Pattern::Composite(name, parts), v, b, extended) == if extended && v is Num { Some(b) } else { None },
        name@ == "type.sym"@ ==> match_value(Pattern::Composite(name, parts), v, b, extended) == if extended && v is Sym { Some(b) } else { None },
        name@ == "type.bool"@ ==> match_value(Pattern::Composite(name, parts), v, b, extended) == if extended && v is Bool { Some(b) } else { None },
        name@ == "type.vec"@ ==> match_value(Pattern::Composite(name, parts), v, b, extended) == if extended && v is List { Some(b) } else { None },
        name@ == "type.ref"@ ==> match_value(Pattern::Composite(name, parts), v, b, extended) == if extended && v is Ref { Some(b) } else { None },
        (name@ == "entity.fields"@ || (extended && name@ == "vec"@)) && (v matches ValueV::List(items) && items.len() != parts@.len())
            ==> match_value(Pattern::Composite(name, parts), v, b, extended) is None,
{
    reveal_strlit("entity.fields");
    reveal_strlit("entity.field");
    reveal_strlit("entity");
    reveal_strlit("vec");
    reveal_strlit("any");
    reveal_strlit("type.num");
    reveal_strlit("type.sym");
    reveal_strlit("type.bool");
    reveal_strlit("type.vec");
    reveal_strlit("type.ref");
    let n = name@;
    assert("entity.fields"@.len() == 13 && "entity.field"@.len() == 12 && "entity"@.len() == 6);
    assert("vec"@.len() == 3 && "any"@.len() == 3);
    assert("type.num"@.len() == 8 && "type.sym"@.len() == 8 && "type.vec"@.len() == 8 && "type.ref"@.len() == 8);
    assert("type.bool"@.len() == 9);
    if n == "any"@ {
        assert(n[0] == 'a');
        assert(n != "vec"@);
    }
    if n.len() == 8 {
        assert(n == "type.num"@ ==> n[5] == 'n' && n != "type.sym"@ && n != "type.vec"@ && n != "type.ref"@);
        assert(n == "type.sym"@ ==> n[5] == 's' && n != "type.num"@ && n != "type.vec"@ && n != "type.ref"@);
        assert(n == "type.vec"@ ==> n[5] == 'v' && n != "type.num"@ && n != "type.sym"@ && n != "type.ref"@);
        assert(n == "type.ref"@ ==> n[5] == 'r' && n != "type.num"@ && n != "type.sym"@ && n != "type.vec"@);
    }
}

/// Matches `pattern` against `value`, extending `bindings`. The answer is whether
/// the match succeeds; on success `bindings` holds the bindings of the match.
pub fn match_with_bindings(pattern: &Pattern, value: &Value, bindings: &mut NameMap<Value>, extended: bool) -> (r: bool)
    requires
        old(bindings).wf(),
    ensures
        final(bindings).wf(),
        r == match_value(*pattern, value@, binding_view(old(bindings)@), extended) is Some,
        r ==> match_value(*pattern, value@, binding_view(old(bindings)@), extended) == Some(binding_view(final(bindings)@)),
    decreases pattern,
{
    match pattern {
        Pattern::Value(expected) => value_eq(expected, value),
        Pattern::Variable(var_name) => {
            match bindings.get(var_name.as_str()) {
                Some(bound) => value_eq(bound, value),
                None => {
                    let ghost before = bindings@;
                    bindings.insert(var_name.clone(), value.deep_copy());
                    proof {
                        assert(binding_view(bindings@) =~= binding_view(before).insert(var_name@, value@));
                    }
                    true
                },
            }
        },
        Pattern::Composite(name, parts) => {
            let field_like = str_eq(name.as_str(), "entity.field") || str_eq(name.as_str(), "entity");
            let list_like = str_eq(name.as_str(), "entity.fields") || (extended && str_eq(name.as_str(), "vec"));
            if field_like {
                match value {
                    Value::Sym(field_value) => {
                        if parts.len() > 0 {
                            match &parts[0] {
                                Pattern::Value(Value::Sym(expected)) => *field_value == *expected,
                                _ => false,
                            }
                        } else {
                            false
                        }
                    },
                    _ => false,
                }
            } else if list_like {
                match value {
                    Value::Vec(items) => {
                        if parts.len() != items.len() {
                            proof {
                                lemma_value_views(items@);
                            }
                            return false;
                        }
                        let ghost b0 = binding_view(bindings@);
                        proof {
                            lemma_value_views(items@);
                            assert(parts@.skip(0) =~= parts@);
                            assert(value_views(items@).skip(0) =~= value_views(items@));
                        }
                        let mut i: usize = 0;
                        while i < parts.len()
                            invariant
                                *pattern == Pattern::Composite(*name, *parts),
                                *value == Value::Vec(*items),
                                b0 == binding_view(old(bindings)@),
                                bindings.wf(),
                                parts.len() == items.len(),
                                i <= parts.len(),
                                value_views(items@).len() == items.len(),
                                forall|j: int| 0 <= j < items.len() ==> #[trigger] value_views(items@)[j] == items@[j]@,
                                match_value(*pattern, value@, b0, extended)
                                    == match_parts(parts@.skip(i as int), value_views(items@).skip(i as int), binding_view(bindings@), extended),
                            decreases parts.len() - i,
                        {
                            proof {
                                assert(decreases_to!(*parts => parts[i as int]));
                                assert(decreases_to!(*pattern => (*pattern)->Composite_1));
                                assert(decreases_to!(*pattern => parts[i as int]));
                                let ps = parts@.skip(i as int);
                                let vs = value_views(items@).skip(i as int);
                                assert(ps[0] == parts@[i as int]);
                                assert(vs[0] == items@[i as int]@);
                                assert(ps.subrange(1, ps.len() as int) =~= parts@.skip(i + 1));
                                assert(vs.subrange(1, vs.len() as int) =~= value_views(items@).skip(i + 1));
                            }
                            let ghost bb = binding_view(bindings@);
                            let ghost ps = parts@.skip(i as int);
                            let ghost vs = value_views(items@).skip(i as int);
                            if !match_with_bindings(&parts[i], &items[i], bindings, extended) {
                                assert(match_value(ps[0], vs[0], bb, extended) is None);
                                assert(match_parts(ps, vs, bb, extended) is None);
                                return false;
                            }
                            i += 1;
                        }
                        true
                    },
                    _ => false,
                }
            } else if extended && str_eq(name.as_str(), "any") {
                true
            } else if extended {
                let t_sym = str_eq(name.as_str(), "type.sym");
                let t_num = str_eq(name.as_str(), "type.num");
                let t_bool = str_eq(name.as_str(), "type.bool");
                let t_vec = str_eq(name.as_str(), "type.vec");
                let t_ref = str_eq(name.as_str(), "type.ref");
                match value {
                    Value::Sym(_) => t_sym,
                    Value::Num(_) => t_num,
                    Value::Bool(_) => t_bool,
                    Value::Vec(_) => t_vec,
                    Value::Ref(_) => t_ref,
                }
            } else {
                false
            }
        },
    }
}

} // verus!
