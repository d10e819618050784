//! PSI: operators, meta-programs, heuristics and mappings that make up a
//! knowledge base, and the choice of a meta-program for a request.
use vstd::prelude::*;
use crate::maps::{NameMap, text_map};
use crate::text::{join2, owned};

pub mod language_mappings;
pub mod meta_programs;
pub mod multimodal_operators;
pub mod operator_engine;
pub mod default_brain;
pub mod commands;

verus! {

/// The smallest unit of behaviour: a KERN template and what it emits in
/// each target language.
#[derive(Debug, Clone)]
pub struct PSI_Operator {
    pub id: u16,
    pub name: String,
    pub domain: String,
    pub purity: u8,
    pub arity_in: u8,
    pub arity_out: u8,
    pub cost_hint: u16,
    pub kern_template: String,
    pub emissions: NameMap<String>,
}

/// A strategy: a named sequence of operators.
#[derive(Debug, Clone)]
pub struct PSI_MetaProgram {
    pub id: u16,
    pub name: String,
    pub operators: Vec<String>,
    pub domain: String,
    pub adaptability: u8,
}

/// A weighting that favours some operators for some requests.
#[derive(Debug, Clone)]
pub struct PSI_Heuristic {
    pub id: u16,
    pub name: String,
    pub trigger_type: String,
    pub weight: u8,
    pub preferred_ops: Vec<String>,
}

/// From an abstract operator to a language's emission template.
#[derive(Debug, Clone)]
pub struct PSI_LanguageMap {
    pub language_id: String,
    pub abstract_operator_id: String,
    pub emission_template_id: String,
}

/// An execution graph of operators.
#[derive(Debug, Clone)]
pub struct PSI_Graph {
    pub id: u32,
    pub name: String,
    pub nodes: Vec<PSI_GraphNode>,
    pub edges: Vec<PSI_GraphEdge>,
}

#[derive(Debug, Clone)]
pub struct PSI_GraphNode {
    pub id: u32,
    pub operator_name: String,
    pub inputs: Vec<String>,
    pub outputs: Vec<String>,
}

#[derive(Debug, Clone)]
pub struct PSI_GraphEdge {
    pub from: u32,
    pub to: u32,
    pub edge_type: String,
}

/// An isolated reasoning session.
#[derive(Debug, Clone)]
pub struct PSI_Context {
    pub id: u32,
    pub name: String,
    pub domain: String,
    pub variables: NameMap<String>,
    pub constraints: Vec<String>,
}

/// A knowledge base.
#[derive(Debug)]
pub struct PSI_Brain {
    pub name: String,
    pub version: String,
    pub operators: Vec<PSI_Operator>,
    pub meta_programs: Vec<PSI_MetaProgram>,
    pub heuristics: Vec<PSI_Heuristic>,
    pub language_maps: Vec<PSI_LanguageMap>,
    pub graphs: Vec<PSI_Graph>,
    pub contexts: Vec<PSI_Context>,
    pub active_context: Option<String>,
}

impl PSI_Brain {
    /// An empty knowledge base of version 1.0.0.
    pub fn new(name: &str) -> (b: Self)
        ensures
            b.name@ == name@,
            b.version@ == "1.0.0"@,
            b.operators@.len() == 0,
            b.meta_programs@.len() == 0,
            b.heuristics@.len() == 0,
            b.language_maps@.len() == 0,
            b.graphs@.len() == 0,
            b.contexts@.len() == 0,
            b.active_context is None,
    {
        PSI_Brain {
            name: owned(name),
            version: owned("1.0.0"),
            operators: Vec::new(),
            meta_programs: Vec::new(),
            heuristics: Vec::new(),
            language_maps: Vec::new(),
            graphs: Vec::new(),
            contexts: Vec::new(),
            active_context: None,
        }
    }

    pub fn add_operator(&mut self, operator: PSI_Operator)
        ensures
            final(self).name == old(self).name,
            final(self).version == old(self).version,
            final(self).active_context == old(self).active_context,
            final(self).operators@ == old(self).operators@.push(operator),
            final(self).meta_programs@ == old(self).meta_programs@,
            final(self).heuristics@ == old(self).heuristics@,
            final(self).language_maps@ == old(self).language_maps@,
            final(self).graphs@ == old(self).graphs@,
            final(self).contexts@ == old(self).contexts@,
    {
        self.operators.push(operator);
    }

    pub fn add_meta_program(&mut self, meta_program: PSI_MetaProgram)
        ensures
            final(self).name == old(self).name,
            final(self).version == old(self).version,
            final(self).active_context == old(self).active_context,
            final(self).meta_programs@ == old(self).meta_programs@.push(meta_program),
            final(self).operators@ == old(self).operators@,
            final(self).heuristics@ == old(self).heuristics@,
            final(self).language_maps@ == old(self).language_maps@,
            final(self).graphs@ == old(self).graphs@,
            final(self).contexts@ == old(self).contexts@,
    {
        self.meta_programs.push(meta_program);
    }

    pub fn add_heuristic(&mut self, heuristic: PSI_Heuristic)
        ensures
            final(self).name == old(self).name,
            final(self).version == old(self).version,
            final(self).active_context == old(self).active_context,
            final(self).heuristics@ == old(self).heuristics@.push(heuristic),
            final(self).operators@ == old(self).operators@,
            final(self).meta_programs@ == old(self).meta_programs@,
            final(self).language_maps@ == old(self).language_maps@,
            final(self).graphs@ == old(self).graphs@,
            final(self).contexts@ == old(self).contexts@,
    {
        self.heuristics.push(heuristic);
    }

    pub fn add_language_map(&mut self, language_map: PSI_LanguageMap)
        ensures
            final(self).name == old(self).name,
            final(self).version == old(self).version,
            final(self).active_context == old(self).active_context,
            final(self).language_maps@ == old(self).language_maps@.push(language_map),
            final(self).operators@ == old(self).operators@,
            final(self).meta_programs@ == old(self).meta_programs@,
            final(self).heuristics@ == old(self).heuristics@,
            final(self).graphs@ == old(self).graphs@,
            final(self).contexts@ == old(self).contexts@,
    {
        self.language_maps.push(language_map);
    }

    pub fn add_graph(&mut self, graph: PSI_Graph)
        ensures
            final(self).name == old(self).name,
            final(self).version == old(self).version,
            final(self).active_context == old(self).active_context,
            final(self).graphs@ == old(self).graphs@.push(graph),
            final(self).operators@ == old(self).operators@,
            final(self).meta_programs@ == old(self).meta_programs@,
            final(self).heuristics@ == old(self).heuristics@,
            final(self).language_maps@ == old(self).language_maps@,
            final(self).contexts@ == old(self).contexts@,
    {
        self.graphs.push(graph);
    }

    pub fn add_context(&mut self, context: PSI_Context)
        ensures
            final(self).name == old(self).name,
            final(self).version == old(self).version,
            final(self).active_context == old(self).active_context,
            final(self).contexts@ == old(self).contexts@.push(context),
            final(self).operators@ == old(self).operators@,
            final(self).meta_programs@ == old(self).meta_programs@,
            final(self).heuristics@ == old(self).heuristics@,
            final(self).language_maps@ == old(self).language_maps@,
            final(self).graphs@ == old(self).graphs@,
    {
        self.contexts.push(context);
    }
}

/// The default emission of `name` in each target language.
pub open spec fn simple_emissions(name: Seq<char>) -> Map<Seq<char>, Seq<char>> {
    map![
        "rust"@ => "// Rust implementation for "@ + name,
        "python"@ => "# Python implementation for "@ + name,
        "go"@ => "// Go implementation for "@ + name,
        "javascript"@ => "// JavaScript implementation for "@ + name,
    ]
}

impl PSI_Operator {
    /// An impure, general operator of one input and one output, cost 10 and
    /// id 0, with a placeholder emission in each target language.
    pub fn new_simple(name: &str, kern_template: &str) -> (op: Self)
        ensures
            op.id == 0,
            op.name@ == name@,
            op.domain@ == "general"@,
            op.purity == 1,
            op.arity_in == 1,
            op.arity_out == 1,
            op.cost_hint == 10,
            op.kern_template@ == kern_template@,
            op.emissions.wf(),
            text_map(op.emissions@) == simple_emissions(name@),
    {
        let mut emissions = NameMap::new_texts();
        emissions.put("rust", join2("// Rust implementation for ", name).as_str());
        emissions.put("python", join2("# Python implementation for ", name).as_str());
        emissions.put("go", join2("// Go implementation for ", name).as_str());
        emissions.put("javascript", join2("// JavaScript implementation for ", name).as_str());
        PSI_Operator {
            id: 0,
            name: owned(name),
            domain: owned("general"),
            purity: 1,
            arity_in: 1,
            arity_out: 1,
            cost_hint: 10,
            kern_template: owned(kern_template),
            emissions,
        }
    }
}

} // verus!
