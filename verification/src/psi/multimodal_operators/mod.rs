//! Operators that work across modalities and languages.
use vstd::prelude::*;
use crate::maps::{NameMap, views, contains_text};
use crate::psi::PSI_Operator;
use crate::psi::language_mappings::{lookup, lookup_text, opt_text};

pub mod multimodal_operators;

verus! {

/// An operator with the modalities it supports and what it turns into for
/// each target modality and language.
#[derive(Debug, Clone)]
pub struct MultiModalOperator {
    pub base_operator: PSI_Operator,
    pub supported_modalities: Vec<String>,
    pub modality_transformations: NameMap<String>,
    pub language_adaptations: NameMap<String>,
}

impl MultiModalOperator {
    pub fn new(
        base_operator: PSI_Operator,
        modalities: Vec<String>,
        transformations: NameMap<String>,
        adaptations: NameMap<String>,
    ) -> (m: Self)
        ensures
            m.base_operator == base_operator,
            m.supported_modalities@ == modalities@,
            m.modality_transformations == transformations,
            m.language_adaptations == adaptations,
    {
        MultiModalOperator {
            base_operator,
            supported_modalities: modalities,
            modality_transformations: transformations,
            language_adaptations: adaptations,
        }
    }

    /// Whether the operator supports a modality.
    pub fn supports_modality(&self, modality: &str) -> (r: bool)
        ensures
            r == views(self.supported_modalities@).contains(modality@),
    {
        contains_text(&self.supported_modalities, modality)
    }

    /// What the operator turns into for a target modality, if known; the
    /// input itself plays no part.
    pub fn transform_modality(&self, input: &str, target_modality: &str) -> (r: Option<String>)
        requires
            self.modality_transformations.wf(),
        ensures
            opt_text(r) == lookup(self.modality_transformations@, target_modality@),
    {
        lookup_text(&self.modality_transformations, target_modality)
    }

    /// What the operator turns into for a target language, if known; the
    /// input itself plays no part.
    pub fn adapt_language(&self, input: &str, target_language: &str) -> (r: Option<String>)
        requires
            self.language_adaptations.wf(),
        ensures
            opt_text(r) == lookup(self.language_adaptations@, target_language@),
    {
        lookup_text(&self.language_adaptations, target_language)
    }
}

} // verus!
