//! Predefined modality mappings.
use vstd::prelude::*;
use crate::maps::{NameMap, text_map};
use crate::psi::language_mappings::ModalityMapping;

verus! {

/// The rules of the `text_to_code` mapping.
pub open spec fn text_to_code_rules() -> Map<Seq<char>, Seq<char>> {
    map![
        "create function"@ => "define_function"@,
        "create class"@ => "define_class"@,
        "loop through"@ => "create_loop"@,
        "if condition"@ => "create_condition"@,
    ]
}

/// The templates of the `text_to_code` mapping.
pub open spec fn text_to_code_templates() -> Map<Seq<char>, Seq<char>> {
    map![
        "function"@ => "fn {name}() {\n    // {description}\n}"@,
        "class"@ => "struct {name} {\n    // {description}\n}"@,
    ]
}

pub fn create_text_to_code_mapping() -> (m: ModalityMapping)
    ensures
        m.id@ == "text_to_code"@,
        m.source_modality@ == "text"@,
        m.target_modality@ == "code"@,
        m.transformation_rules.wf(),
        m.template_mappings.wf(),
        text_map(m.transformation_rules@) == text_to_code_rules(),
        text_map(m.template_mappings@) == text_to_code_templates(),
{
    let mut rules = NameMap::new_texts();
    rules.put("create function", "define_function");
    rules.put("create class", "define_class");
    rules.put("loop through", "create_loop");
    rules.put("if condition", "create_condition");
    let mut templates = NameMap::new_texts();
    templates.put("function", "fn {name}() {\n    // {description}\n}");
    templates.put("class", "struct {name} {\n    // {description}\n}");
    ModalityMapping::new("text_to_code", "text", "code", rules, templates)
}

/// The rules of the `code_to_text` mapping.
pub open spec fn code_to_text_rules() -> Map<Seq<char>, Seq<char>> {
    map![
        "fn"@ => "function"@,
        "struct"@ => "class or data structure"@,
        "impl"@ => "implementation block"@,
        "trait"@ => "interface or contract"@,
    ]
}

/// The templates of the `code_to_text` mapping.
pub open spec fn code_to_text_templates() -> Map<Seq<char>, Seq<char>> {
    map![
        "function"@ => "The function {name} performs: {description}"@,
        "struct"@ => "The structure {name} represents: {description}"@,
    ]
}

pub fn create_code_to_text_mapping() -> (m: ModalityMapping)
    ensures
        m.id@ == "code_to_text"@,
        m.source_modality@ == "code"@,
        m.target_modality@ == "text"@,
        m.transformation_rules.wf(),
        m.template_mappings.wf(),
        text_map(m.transformation_rules@) == code_to_text_rules(),
        text_map(m.template_mappings@) == code_to_text_templates(),
{
    let mut rules = NameMap::new_texts();
    rules.put("fn", "function");
    rules.put("struct", "class or data structure");
    rules.put("impl", "implementation block");
    rules.put("trait", "interface or contract");
    let mut templates = NameMap::new_texts();
    templates.put("function", "The function {name} performs: {description}");
    templates.put("struct", "The structure {name} represents: {description}");
    ModalityMapping::new("code_to_text", "code", "text", rules, templates)
}

/// The rules of the `text_to_image` mapping.
pub open spec fn text_to_image_rules() -> Map<Seq<char>, Seq<char>> {
    map![
        "portrait"@ => "portrait_image"@,
        "landscape"@ => "landscape_image"@,
        "chart"@ => "data_visualization"@,
        "diagram"@ => "technical_diagram"@,
    ]
}

/// The templates of the `text_to_image` mapping.
pub open spec fn text_to_image_templates() -> Map<Seq<char>, Seq<char>> {
    map![
        "portrait"@ => "portrait of {subject}, {style}, {details}"@,
        "landscape"@ => "landscape of {scene}, {style}, {details}"@,
    ]
}

pub fn create_text_to_image_mapping() -> (m: ModalityMapping)
    ensures
        m.id@ == "text_to_image"@,
        m.source_modality@ == "text"@,
        m.target_modality@ == "image"@,
        m.transformation_rules.wf(),
        m.template_mappings.wf(),
        text_map(m.transformation_rules@) == text_to_image_rules(),
        text_map(m.template_mappings@) == text_to_image_templates(),
{
    let mut rules = NameMap::new_texts();
    rules.put("portrait", "portrait_image");
    rules.put("landscape", "landscape_image");
    rules.put("chart", "data_visualization");
    rules.put("diagram", "technical_diagram");
    let mut templates = NameMap::new_texts();
    templates.put("portrait", "portrait of {subject}, {style}, {details}");
    templates.put("landscape", "landscape of {scene}, {style}, {details}");
    ModalityMapping::new("text_to_image", "text", "image", rules, templates)
}


} // verus!
