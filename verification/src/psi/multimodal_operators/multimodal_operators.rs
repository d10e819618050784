//! The predefined multimodal operators.
use vstd::prelude::*;
use crate::maps::{NameMap, text_map, views};
use crate::text::owned;
use crate::psi::PSI_Operator;
use crate::psi::multimodal_operators::MultiModalOperator;
use crate::psi::operator_engine::common_operators;

verus! {

/// What the `text_to_code` operator turns into for each modality.
pub open spec fn text_to_code_transformations() -> Map<Seq<char>, Seq<char>> {
    map![
        "code"@ => "convert_text_to_code"@,
        "image"@ => "create_visual_representation"@,
    ]
}

/// What the `text_to_code` operator turns into for each language.
pub open spec fn text_to_code_adaptations() -> Map<Seq<char>, Seq<char>> {
    map![
        "rust"@ => "// Rust implementation"@,
        "python"@ => "# Python implementation"@,
        "go"@ => "// Go implementation"@,
    ]
}

pub fn create_text_to_code_operator() -> (m: MultiModalOperator)
    ensures
        m.base_operator.id == 1,
        m.base_operator.name@ == "DefineEntities"@,
        m.base_operator.kern_template@ == common_operators::DEFINE_ENTITIES_TEMPLATE@,
        m.base_operator.emissions.wf(),
        text_map(m.base_operator.emissions@) == common_operators::define_entities_emissions(),
        views(m.supported_modalities@) == seq!["text"@, "code"@, "image"@],
        m.modality_transformations.wf(),
        m.language_adaptations.wf(),
        text_map(m.modality_transformations@) == text_to_code_transformations(),
        text_map(m.language_adaptations@) == text_to_code_adaptations(),
{
    let base_op = common_operators::create_define_entities_operator();
    let mut transformations = NameMap::new_texts();
    transformations.put("code", "convert_text_to_code");
    transformations.put("image", "create_visual_representation");
    let mut adaptations = NameMap::new_texts();
    adaptations.put("rust", "// Rust implementation");
    adaptations.put("python", "# Python implementation");
    adaptations.put("go", "// Go implementation");
    let modalities: Vec<String> = vec![owned("text"), owned("code"), owned("image")];
    assert(views(modalities@) =~= seq!["text"@, "code"@, "image"@]);
    MultiModalOperator::new(base_op, modalities, transformations, adaptations)
}

/// What the `code_generation` operator turns into for each modality.
pub open spec fn code_generation_transformations() -> Map<Seq<char>, Seq<char>> {
    map![
        "text"@ => "parse_specification"@,
        "code"@ => "generate_code"@,
        "image"@ => "create_architecture_diagram"@,
    ]
}

/// What the `code_generation` operator turns into for each language.
pub open spec fn code_generation_adaptations() -> Map<Seq<char>, Seq<char>> {
    map![
        "rust"@ => "// Rust implementation"@,
        "python"@ => "# Python implementation"@,
        "go"@ => "// Go implementation"@,
        "javascript"@ => "// JavaScript implementation"@,
    ]
}

/// The emissions of the `code_generation` operator's base.
pub open spec fn code_generation_emissions() -> Map<Seq<char>, Seq<char>> {
    map![
        "rust"@ => "// Generated Rust code"@,
        "python"@ => "# Generated Python code"@,
        "go"@ => "// Generated Go code"@,
        "javascript"@ => "// Generated JavaScript code"@,
    ]
}

pub fn create_code_generation_operator() -> (m: MultiModalOperator)
    ensures
        m.base_operator.id == 100,
        m.base_operator.name@ == "MultiModalCodeGeneration"@,
        m.base_operator.domain@ == "code_generation"@,
        m.base_operator.purity == 0,
        m.base_operator.arity_in == 1,
        m.base_operator.arity_out == 1,
        m.base_operator.cost_hint == 20,
        m.base_operator.kern_template@ == "rule MultiModalCodeGeneration:\n    if has_specification()\n    then generate_code_for_all_modalities()"@,
        m.base_operator.emissions.wf(),
        text_map(m.base_operator.emissions@) == code_generation_emissions(),
        views(m.supported_modalities@) == seq!["text"@, "code"@, "image"@],
        m.modality_transformations.wf(),
        m.language_adaptations.wf(),
        text_map(m.modality_transformations@) == code_generation_transformations(),
        text_map(m.language_adaptations@) == code_generation_adaptations(),
{
    let mut base_emissions = NameMap::new_texts();
    base_emissions.put("rust", "// Generated Rust code");
    base_emissions.put("python", "# Generated Python code");
    base_emissions.put("go", "// Generated Go code");
    base_emissions.put("javascript", "// Generated JavaScript code");
    let base_op = PSI_Operator {
        id: 100,
        name: owned("MultiModalCodeGeneration"),
        domain: owned("code_generation"),
        purity: 0,
        arity_in: 1,
        arity_out: 1,
        cost_hint: 20,
        kern_template: owned("rule MultiModalCodeGeneration:\n    if has_specification()\n    then generate_code_for_all_modalities()"),
        emissions: base_emissions,
    };
    let mut transformations = NameMap::new_texts();
    transformations.put("text", "parse_specification");
    transformations.put("code", "generate_code");
    transformations.put("image", "create_architecture_diagram");
    let mut adaptations = NameMap::new_texts();
    adaptations.put("rust", "// Rust implementation");
    adaptations.put("python", "# Python implementation");
    adaptations.put("go", "// Go implementation");
    adaptations.put("javascript", "// JavaScript implementation");
    let modalities: Vec<String> = vec![owned("text"), owned("code"), owned("image")];
    assert(views(modalities@) =~= seq!["text"@, "code"@, "image"@]);
    MultiModalOperator::new(base_op, modalities, transformations, adaptations)
}

/// What the `image_generation` operator turns into for each modality.
pub open spec fn image_generation_transformations() -> Map<Seq<char>, Seq<char>> {
    map![
        "text"@ => "parse_description_for_image"@,
        "image"@ => "generate_image"@,
        "code"@ => "generate_image_processing_code"@,
    ]
}

/// What the `image_generation` operator turns into for each language.
pub open spec fn image_generation_adaptations() -> Map<Seq<char>, Seq<char>> {
    map![
        "rust"@ => "// Use image crate for image generation"@,
        "python"@ => "# Use PIL/Pillow for image generation"@,
    ]
}

/// The emissions of the `image_generation` operator's base.
pub open spec fn image_generation_emissions() -> Map<Seq<char>, Seq<char>> {
    map![
        "rust"@ => "// Image generation in Rust using image crate"@,
        "python"@ => "# Image generation in Python using PIL"@,
    ]
}

pub fn create_image_generation_operator() -> (m: MultiModalOperator)
    ensures
        m.base_operator.id == 101,
        m.base_operator.name@ == "ImageGeneration"@,
        m.base_operator.domain@ == "image_generation"@,
        m.base_operator.purity == 0,
        m.base_operator.arity_in == 1,
        m.base_operator.arity_out == 1,
        m.base_operator.cost_hint == 50,
        m.base_operator.kern_template@ == "rule ImageGeneration:\n    if has_description()\n    then generate_image_from_description()"@,
        m.base_operator.emissions.wf(),
        text_map(m.base_operator.emissions@) == image_generation_emissions(),
        views(m.supported_modalities@) == seq!["text"@, "image"@, "code"@],
        m.modality_transformations.wf(),
        m.language_adaptations.wf(),
        text_map(m.modality_transformations@) == image_generation_transformations(),
        text_map(m.language_adaptations@) == image_generation_adaptations(),
{
    let mut base_emissions = NameMap::new_texts();
    base_emissions.put("rust", "// Image generation in Rust using image crate");
    base_emissions.put("python", "# Image generation in Python using PIL");
    let base_op = PSI_Operator {
        id: 101,
        name: owned("ImageGeneration"),
        domain: owned("image_generation"),
        purity: 0,
        arity_in: 1,
        arity_out: 1,
        cost_hint: 50,
        kern_template: owned("rule ImageGeneration:\n    if has_description()\n    then generate_image_from_description()"),
        emissions: base_emissions,
    };
    let mut transformations = NameMap::new_texts();
    transformations.put("text", "parse_description_for_image");
    transformations.put("image", "generate_image");
    transformations.put("code", "generate_image_processing_code");
    let mut adaptations = NameMap::new_texts();
    adaptations.put("rust", "// Use image crate for image generation");
    adaptations.put("python", "# Use PIL/Pillow for image generation");
    let modalities: Vec<String> = vec![owned("text"), owned("image"), owned("code")];
    assert(views(modalities@) =~= seq!["text"@, "image"@, "code"@]);
    MultiModalOperator::new(base_op, modalities, transformations, adaptations)
}

} // verus!
