//! The inputs, outputs and variables an operator runs with, and the common operators.
use vstd::prelude::*;
use crate::maps::{NameMap, text_map, views};
use crate::text::{owned, join2, join3, replace_all, replaced, str_eq};
use crate::psi::{PSI_Brain, PSI_Operator};

pub mod common_operators;

verus! {

/// What an operator runs with: named inputs, outputs and variables, and the
/// target language.
#[derive(Debug, Clone)]
pub struct OperatorExecutionContext {
    pub inputs: NameMap<String>,
    pub outputs: NameMap<String>,
    pub context_vars: NameMap<String>,
    pub language: String,
}

impl OperatorExecutionContext {
    pub open spec fn wf(&self) -> bool {
        &&& self.inputs.wf()
        &&& self.outputs.wf()
        &&& self.context_vars.wf()
    }

    /// An empty context for Rust.
    pub fn new() -> (c: Self)
        ensures
            c.wf(),
            text_map(c.inputs@) == Map::<Seq<char>, Seq<char>>::empty(),
            text_map(c.outputs@) == Map::<Seq<char>, Seq<char>>::empty(),
            text_map(c.context_vars@) == Map::<Seq<char>, Seq<char>>::empty(),
            c.language@ == "rust"@,
    {
        OperatorExecutionContext {
            inputs: NameMap::new_texts(),
            outputs: NameMap::new_texts(),
            context_vars: NameMap::new_texts(),
            language: owned("rust"),
        }
    }

    pub fn set_input(&mut self, key: String, value: String)
        requires
            old(self).wf(),
        ensures
            final(self).wf(),
            final(self).inputs@ == old(self).inputs@.insert(key@, value),
            final(self).outputs == old(self).outputs,
            final(self).context_vars == old(self).context_vars,
            final(self).language == old(self).language,
    {
        self.inputs.insert(key, value);
    }

    pub fn get_input(&self, key: &str) -> (r: Option<&String>)
        requires
            self.wf(),
        ensures
            match r {
                Some(v) => self.inputs@.contains_key(key@) && *v == self.inputs@[key@],
                None => !self.inputs@.contains_key(key@),
            },
    {
        self.inputs.get(key)
    }

    pub fn set_output(&mut self, key: String, value: String)
        requires
            old(self).wf(),
        ensures
            final(self).wf(),
            final(self).outputs@ == old(self).outputs@.insert(key@, value),
            final(self).inputs == old(self).inputs,
            final(self).context_vars == old(self).context_vars,
            final(self).language == old(self).language,
    {
        self.outputs.insert(key, value);
    }

    pub fn get_output(&self, key: &str) -> (r: Option<&String>)
        requires
            self.wf(),
        ensures
            match r {
                Some(v) => self.outputs@.contains_key(key@) && *v == self.outputs@[key@],
                None => !self.outputs@.contains_key(key@),
            },
    {
        self.outputs.get(key)
    }

    pub fn set_context_var(&mut self, key: String, value: String)
        requires
            old(self).wf(),
        ensures
            final(self).wf(),
            final(self).context_vars@ == old(self).context_vars@.insert(key@, value),
            final(self).inputs == old(self).inputs,
            final(self).outputs == old(self).outputs,
            final(self).language == old(self).language,
    {
        self.context_vars.insert(key, value);
    }

    pub fn get_context_var(&self, key: &str) -> (r: Option<&String>)
        requires
            self.wf(),
        ensures
            match r {
                Some(v) => self.context_vars@.contains_key(key@) && *v == self.context_vars@[key@],
                None => !self.context_vars@.contains_key(key@),
            },
    {
        self.context_vars.get(key)
    }
}

/// The placeholder of a name in a template: the name in double braces.
pub open spec fn placeholder(key: Seq<char>) -> Seq<char> {
    "{{"@ + key + "}}"@
}

/// A template with the placeholder of each name replaced by its value, name
/// by name in order.
pub open spec fn substitute_all(t: Seq<char>, keys: Seq<Seq<char>>, vals: Seq<Seq<char>>) -> Seq<char>
    decreases keys.len(),
{
    if keys.len() == 0 {
        t
    } else {
        replaced(substitute_all(t, keys.drop_last(), vals.drop_last()), placeholder(keys.last()), vals[keys.len() - 1])
    }
}

/// Replaces in `result` the placeholder of each name of `m` by its value.
fn substitute_from(result: String, m: &NameMap<String>) -> (r: String)
    requires
        m.wf(),
    ensures
        r@ == substitute_all(result@, m.key_seq(), views(m.val_seq())),
{
    let ghost t = result@;
    let ghost ks = m.key_seq();
    let ghost vs = views(m.val_seq());
    let mut result = result;
    let n = m.len();
    let mut i: usize = 0;
    assert(ks.take(0) =~= Seq::<Seq<char>>::empty());
    while i < n
        invariant
            m.wf(),
            n == m.spec_len(),
            ks == m.key_seq(),
            vs == views(m.val_seq()),
            i <= n,
            result@ == substitute_all(t, ks.take(i as int), vs.take(i as int)),
        decreases n - i,
    {
        let key = m.key_at(i);
        let value = m.val_at(i);
        let ph = join3("{{", key.as_str(), "}}");
        proof {
            reveal_strlit("{{");
        }
        assert(ks.take(i + 1).drop_last() =~= ks.take(i as int));
        assert(vs.take(i + 1).drop_last() =~= vs.take(i as int));
        assert(ks.take(i + 1).last() == key@);
        assert(vs.take(i + 1)[i as int] == value@);
        result = replace_all(result.as_str(), ph.as_str(), value.as_str());
        i += 1;
    }
    assert(ks.take(n as int) =~= ks);
    assert(vs.take(n as int) =~= vs);
    result
}

/// A template with the placeholders of the context's inputs, then of its
/// variables, replaced by their values.
pub fn substitute_template(template: &str, context: &OperatorExecutionContext) -> (r: String)
    requires
        context.wf(),
    ensures
        r@ == substitute_all(
            substitute_all(template@, context.inputs.key_seq(), views(context.inputs.val_seq())),
            context.context_vars.key_seq(),
            views(context.context_vars.val_seq()),
        ),
{
    let result = substitute_from(owned(template), &context.inputs);
    substitute_from(result, &context.context_vars)
}

/// The template an operator runs with in a language: its emission for
/// rust, python, go or javascript when it has one, else its KERN template.
pub open spec fn template_for(op: PSI_Operator, language: Seq<char>) -> Seq<char> {
    if (language == "rust"@ || language == "python"@ || language == "go"@ || language == "javascript"@)
        && op.emissions@.contains_key(language) {
        op.emissions@[language]@
    } else {
        op.kern_template@
    }
}

/// The template an operator runs with in a language.
pub fn select_template(operator: &PSI_Operator, language: &str) -> (r: String)
    requires
        operator.emissions.wf(),
    ensures
        r@ == template_for(*operator, language@),
{
    if str_eq(language, "rust") || str_eq(language, "python") || str_eq(language, "go") || str_eq(language, "javascript") {
        match operator.emissions.get(language) {
            Some(t) => t.clone(),
            None => operator.kern_template.clone(),
        }
    } else {
        operator.kern_template.clone()
    }
}

/// The index of the first operator named `name`, if any.
pub fn find_operator(brain: &PSI_Brain, name: &str) -> (r: Option<usize>)
    ensures
        match r {
            Some(i) => i < brain.operators@.len() && brain.operators@[i as int].name@ == name@
                && forall|k: int| 0 <= k < i ==> (#[trigger] brain.operators@[k]).name@ != name@,
            None => forall|k: int| 0 <= k < brain.operators@.len() ==> (#[trigger] brain.operators@[k]).name@ != name@,
        },
{
    let mut i: usize = 0;
    while i < brain.operators.len()
        invariant
            i <= brain.operators@.len(),
            forall|k: int| 0 <= k < i ==> (#[trigger] brain.operators@[k]).name@ != name@,
        decreases brain.operators@.len() - i,
    {
        if str_eq(brain.operators[i].name.as_str(), name) {
            return Some(i);
        }
        i += 1;
    }
    None
}

/// Whether `i` is the index of the first operator named `name`.
pub open spec fn first_operator(brain: PSI_Brain, name: Seq<char>, i: int) -> bool {
    &&& 0 <= i < brain.operators@.len()
    &&& brain.operators@[i].name@ == name
    &&& forall|k: int| 0 <= k < i ==> (#[trigger] brain.operators@[k]).name@ != name
}

/// Whether some operator is named `name`.
pub open spec fn has_operator(brain: PSI_Brain, name: Seq<char>) -> bool {
    exists|k: int| 0 <= k < brain.operators@.len() && (#[trigger] brain.operators@[k]).name@ == name
}

/// The operators a chain of names stands for, each the first of its name;
/// or the error for the first name no operator has.
pub fn resolve_operator_chain(brain: &PSI_Brain, operator_names: &[String]) -> (r: Result<Vec<usize>, String>)
    ensures
        match r {
            Ok(v) => v@.len() == operator_names@.len()
                && forall|j: int| 0 <= j < v@.len() ==> first_operator(*brain, operator_names@[j]@, #[trigger] v@[j] as int),
            Err(e) => exists|j: int| {
                &&& 0 <= j < operator_names@.len()
                &&& !has_operator(*brain, operator_names@[j]@)
                &&& (forall|t: int| 0 <= t < j ==> has_operator(*brain, (#[trigger] operator_names@[t])@))
                &&& e@ == "Operator not found: "@ + operator_names@[j]@
            },
        },
{
    let mut v: Vec<usize> = Vec::new();
    let mut j: usize = 0;
    while j < operator_names.len()
        invariant
            j <= operator_names@.len(),
            v@.len() == j,
            forall|t: int| 0 <= t < j ==> first_operator(*brain, operator_names@[t]@, #[trigger] v@[t] as int),
        decreases operator_names@.len() - j,
    {
        match find_operator(brain, operator_names[j].as_str()) {
            Some(i) => {
                v.push(i);
            },
            None => {
                proof {
                    assert forall|t: int| 0 <= t < j implies has_operator(*brain, (#[trigger] operator_names@[t])@) by {
                        assert(first_operator(*brain, operator_names@[t]@, v@[t] as int));
                        let k = v@[t] as int;
                        assert(brain.operators@[k].name@ == operator_names@[t]@);
                    }
                }
                return Err(join2("Operator not found: ", operator_names[j].as_str()));
            },
        }
        j += 1;
    }
    Ok(v)
}

} // verus!
