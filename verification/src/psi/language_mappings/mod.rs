//! Translations between programming languages and between modalities.
use vstd::prelude::*;
use crate::maps::NameMap;

pub mod predefined_language_mappings;
pub mod predefined_modality_mappings;
use crate::text::owned;

verus! {

/// Rules and templates for translating one programming language into another.
#[derive(Debug, Clone)]
pub struct LanguageMapping {
    pub id: String,
    pub source_language: String,
    pub target_language: String,
    pub translation_rules: NameMap<String>,
    pub syntax_templates: NameMap<String>,
}

/// Rules and templates for turning one modality (text, code, image) into another.
#[derive(Debug, Clone)]
pub struct ModalityMapping {
    pub id: String,
    pub source_modality: String,
    pub target_modality: String,
    pub transformation_rules: NameMap<String>,
    pub template_mappings: NameMap<String>,
}

/// The text under `k` in a map of texts, if any.
pub open spec fn lookup(m: Map<Seq<char>, String>, k: Seq<char>) -> Option<Seq<char>> {
    if m.contains_key(k) {
        Some(m[k]@)
    } else {
        None
    }
}

/// What an optional text says.
pub open spec fn opt_text(r: Option<String>) -> Option<Seq<char>> {
    match r {
        Some(s) => Some(s@),
        None => None,
    }
}

/// A copy of the text under `k`, if any.
pub fn lookup_text(m: &NameMap<String>, k: &str) -> (r: Option<String>)
    requires
        m.wf(),
    ensures
        opt_text(r) == lookup(m@, k@),
{
    match m.get(k) {
        Some(v) => Some(v.clone()),
        None => None,
    }
}

impl LanguageMapping {
    pub fn new(id: &str, source_language: &str, target_language: &str, rules: NameMap<String>, templates: NameMap<String>) -> (m: Self)
        ensures
            m.id@ == id@,
            m.source_language@ == source_language@,
            m.target_language@ == target_language@,
            m.translation_rules == rules,
            m.syntax_templates == templates,
    {
        LanguageMapping {
            id: owned(id),
            source_language: owned(source_language),
            target_language: owned(target_language),
            translation_rules: rules,
            syntax_templates: templates,
        }
    }

    /// The translation of a construct, if there is a rule for it.
    pub fn translate_construct(&self, construct: &str) -> (r: Option<String>)
        requires
            self.translation_rules.wf(),
        ensures
            opt_text(r) == lookup(self.translation_rules@, construct@),
    {
        lookup_text(&self.translation_rules, construct)
    }

    /// The template for a kind of construct, if there is one.
    pub fn get_syntax_template(&self, construct_type: &str) -> (r: Option<String>)
        requires
            self.syntax_templates.wf(),
        ensures
            opt_text(r) == lookup(self.syntax_templates@, construct_type@),
    {
        lookup_text(&self.syntax_templates, construct_type)
    }
}

impl ModalityMapping {
    pub fn new(id: &str, source_modality: &str, target_modality: &str, rules: NameMap<String>, templates: NameMap<String>) -> (m: Self)
        ensures
            m.id@ == id@,
            m.source_modality@ == source_modality@,
            m.target_modality@ == target_modality@,
            m.transformation_rules == rules,
            m.template_mappings == templates,
    {
        ModalityMapping {
            id: owned(id),
            source_modality: owned(source_modality),
            target_modality: owned(target_modality),
            transformation_rules: rules,
            template_mappings: templates,
        }
    }

    /// What an input turns into, if there is a rule for it.
    pub fn transform(&self, input: &str) -> (r: Option<String>)
        requires
            self.transformation_rules.wf(),
        ensures
            opt_text(r) == lookup(self.transformation_rules@, input@),
    {
        lookup_text(&self.transformation_rules, input)
    }

    /// The template of a kind, if there is one.
    pub fn get_template(&self, template_type: &str) -> (r: Option<String>)
        requires
            self.template_mappings.wf(),
        ensures
            opt_text(r) == lookup(self.template_mappings@, template_type@),
    {
        lookup_text(&self.template_mappings, template_type)
    }
}

} // verus!
