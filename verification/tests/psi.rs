use kern::psi::language_mappings::predefined_language_mappings;
use kern::psi::language_mappings::predefined_modality_mappings;
use kern::psi::meta_programs::{
    create_default_heuristics, create_generate_module_metaprogram, create_refactor_code_metaprogram, select_metaprogram,
    select_metaprogram_checked, apply_heuristics, create_debug_issue_metaprogram,
};
use kern::psi::multimodal_operators::multimodal_operators;
use kern::psi::operator_engine::common_operators;
use kern::psi::operator_engine::OperatorExecutionContext;
use kern::psi::{PSI_Brain, PSI_MetaProgram, PSI_Operator};

#[test]
fn test_psi_brain_creation() {
    let mut brain = PSI_Brain::new("test-brain");
    let op = PSI_Operator::new_simple("TestOperator", "rule TestOperator: if 1 == 1 then log(\"Test\")");
    brain.add_operator(op);
    let mp = PSI_MetaProgram {
        id: 1,
        name: "TestMetaProgram".to_string(),
        operators: vec!["TestOperator".to_string()],
        domain: "testing".to_string(),
        adaptability: 50,
    };
    brain.add_meta_program(mp);
    assert_eq!(brain.operators.len(), 1);
    assert_eq!(brain.meta_programs.len(), 1);
}

#[test]
fn test_language_mapping_creation() {
    let mapping = predefined_language_mappings::create_rust_to_python_mapping();
    assert_eq!(mapping.source_language, "rust");
    assert_eq!(mapping.target_language, "python");
    assert!(mapping.translate_construct("struct").is_some());
    assert_eq!(mapping.translate_construct("struct").unwrap(), "class");
}

#[test]
fn test_modality_mapping_creation() {
    let mapping = predefined_modality_mappings::create_text_to_code_mapping();
    assert_eq!(mapping.source_modality, "text");
    assert_eq!(mapping.target_modality, "code");
    assert!(mapping.transform("create function").is_some());
    assert_eq!(mapping.transform("create function").unwrap(), "define_function");
}

#[test]
fn test_metaprogram_creation() {
    let mp = create_generate_module_metaprogram();
    assert_eq!(mp.name, "GenerateModule");
    assert_eq!(mp.operators.len(), 4);
    assert_eq!(mp.operators[0], "DefineEntities");
}

#[test]
fn test_heuristics_creation() {
    let heuristics = create_default_heuristics();
    assert_eq!(heuristics.len(), 4);
    assert_eq!(heuristics[0].name, "generate_heuristic");
}

fn sample_brain() -> PSI_Brain {
    let mut brain = PSI_Brain::new("test");
    brain.add_operator(common_operators::create_define_entities_operator());
    brain.add_operator(common_operators::create_create_routes_operator());
    brain.add_operator(common_operators::create_implement_auth_operator());
    brain.add_operator(common_operators::create_write_tests_operator());
    brain.add_meta_program(create_generate_module_metaprogram());
    brain.add_meta_program(create_refactor_code_metaprogram());
    for h in create_default_heuristics() {
        brain.add_heuristic(h);
    }
    brain
}

#[test]
fn test_select_metaprogram() {
    let brain = sample_brain();
    let mp = select_metaprogram("generate a new module", &brain);
    assert!(mp.is_some());
    assert_eq!(mp.unwrap().name, "GenerateModule");
}

#[test]
fn test_multimodal_operator_creation() {
    let mm_op = multimodal_operators::create_text_to_code_operator();
    assert!(mm_op.supports_modality("text"));
    assert!(mm_op.supports_modality("code"));
    assert!(!mm_op.supports_modality("video"));
}

#[test]
fn test_modality_transformation() {
    let mm_op = multimodal_operators::create_text_to_code_operator();
    let result = mm_op.transform_modality("input", "code");
    assert!(result.is_some());
}

#[test]
fn test_common_operators() {
    let ops = [
        common_operators::create_define_entities_operator(),
        common_operators::create_create_routes_operator(),
        common_operators::create_implement_auth_operator(),
        common_operators::create_write_tests_operator(),
    ];
    assert_eq!(ops.len(), 4);
    assert_eq!(ops[0].name, "DefineEntities");
    assert_eq!(ops[1].name, "CreateRoutes");
    assert_eq!(ops[2].name, "ImplementAuth");
    assert_eq!(ops[3].name, "WriteTests");
}

#[test]
fn select_by_name_ignores_case() {
    let brain = sample_brain();
    let mp = select_metaprogram("Please run RefactorCode now", &brain).unwrap();
    assert_eq!(mp.name, "RefactorCode");
    let mp = select_metaprogram("I need WRITETESTS", &brain).unwrap();
    assert_eq!(mp.name, "GenerateModule");
}

#[test]
fn select_by_heuristics_and_none() {
    let mut brain = sample_brain();
    brain.add_meta_program(create_debug_issue_metaprogram());
    let mp = select_metaprogram("please fix this", &brain).unwrap();
    assert_eq!(mp.name, "DebugIssue");
    assert!(select_metaprogram("hello world", &brain).is_none());
    let checked = select_metaprogram_checked("hello world", &brain);
    assert!(matches!(checked, Some(None)));
    assert_eq!(apply_heuristics("optimize it", &brain).unwrap().name, "RefactorCode");
}

#[test]
fn new_simple_emissions() {
    let op = PSI_Operator::new_simple("Sum", "rule Sum: if true then add()");
    assert_eq!(op.emissions.get("rust").unwrap(), "// Rust implementation for Sum");
    assert_eq!(op.emissions.get("python").unwrap(), "# Python implementation for Sum");
    assert_eq!(op.emissions.get("javascript").unwrap(), "// JavaScript implementation for Sum");
    assert_eq!(op.cost_hint, 10);
    assert_eq!(op.purity, 1);
}

#[test]
fn operator_context_round_trip() {
    let mut ctx = OperatorExecutionContext::new();
    assert_eq!(ctx.language, "rust");
    ctx.set_input("name".to_string(), "User".to_string());
    ctx.set_output("code".to_string(), "struct User;".to_string());
    ctx.set_context_var("lang".to_string(), "go".to_string());
    assert_eq!(ctx.get_input("name").unwrap(), "User");
    assert_eq!(ctx.get_output("code").unwrap(), "struct User;");
    assert_eq!(ctx.get_context_var("lang").unwrap(), "go");
    assert!(ctx.get_input("missing").is_none());
}

#[test]
fn language_mapping_lookups() {
    let mapping = predefined_language_mappings::create_rust_to_go_mapping();
    assert_eq!(mapping.translate_construct("Vec<T>").unwrap(), "[]T");
    assert!(mapping.translate_construct("trait").is_none());
    assert_eq!(mapping.get_syntax_template("struct").unwrap(), "type {name} struct {\n    {fields}\n}");
    let m = predefined_modality_mappings::create_code_to_text_mapping();
    assert_eq!(m.get_template("function").unwrap(), "The function {name} performs: {description}");
}
