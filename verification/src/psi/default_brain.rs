//! The default knowledge base: the common operators and those of the other
//! domains (analysis, refactoring, debugging, translation, explanation).
use vstd::prelude::*;
use crate::maps::{NameMap, text_map};
use crate::text::owned;
use crate::psi::{PSI_Brain, PSI_Operator};
use crate::psi::operator_engine::common_operators;
use crate::psi::multimodal_operators::multimodal_operators;

verus! {

/// The KERN template of `AnalyzePatterns`.
pub const ANALYZE_PATTERNS_TEMPLATE: &'static str = r#"rule AnalyzePatterns: 
    if has_code() 
    then analyze_code_patterns()"#;

/// The emissions of `AnalyzePatterns`.
pub open spec fn analyze_patterns_emissions() -> Map<Seq<char>, Seq<char>> {
    map![
        "rust"@ => "// Analyze code patterns in Rust"@,
        "python"@ => "# Analyze code patterns in Python"@,
        "go"@ => "// Analyze code patterns in Go"@,
        "javascript"@ => "// Analyze code patterns in JavaScript"@,
    ]
}

pub fn create_analyze_patterns_operator() -> (op: PSI_Operator)
    ensures
        op.id == 5,
        op.name@ == "AnalyzePatterns"@,
        op.domain@ == "analysis"@,
        op.purity == 1,
        op.arity_in == 1,
        op.arity_out == 1,
        op.cost_hint == 12,
        op.kern_template@ == ANALYZE_PATTERNS_TEMPLATE@,
        op.emissions.wf(),
        text_map(op.emissions@) == analyze_patterns_emissions(),
{
    let mut emissions = NameMap::new_texts();
    emissions.put("rust", "// Analyze code patterns in Rust");
    emissions.put("python", "# Analyze code patterns in Python");
    emissions.put("go", "// Analyze code patterns in Go");
    emissions.put("javascript", "// Analyze code patterns in JavaScript");
    PSI_Operator {
        id: 5,
        name: owned("AnalyzePatterns"),
        domain: owned("analysis"),
        purity: 1,
        arity_in: 1,
        arity_out: 1,
        cost_hint: 12,
        kern_template: owned(ANALYZE_PATTERNS_TEMPLATE),
        emissions,
    }
}

/// The KERN template of `OptimizeQueries`.
pub const OPTIMIZE_QUERIES_TEMPLATE: &'static str = r#"rule OptimizeQueries: 
    if has_database_queries() 
    then optimize_query_performance()"#;

/// The emissions of `OptimizeQueries`.
pub open spec fn optimize_queries_emissions() -> Map<Seq<char>, Seq<char>> {
    map![
        "rust"@ => "// Optimize database queries in Rust"@,
        "python"@ => "# Optimize database queries in Python"@,
        "go"@ => "// Optimize database queries in Go"@,
        "javascript"@ => "// Optimize database queries in JavaScript"@,
    ]
}

pub fn create_optimize_queries_operator() -> (op: PSI_Operator)
    ensures
        op.id == 6,
        op.name@ == "OptimizeQueries"@,
        op.domain@ == "optimization"@,
        op.purity == 1,
        op.arity_in == 1,
        op.arity_out == 1,
        op.cost_hint == 15,
        op.kern_template@ == OPTIMIZE_QUERIES_TEMPLATE@,
        op.emissions.wf(),
        text_map(op.emissions@) == optimize_queries_emissions(),
{
    let mut emissions = NameMap::new_texts();
    emissions.put("rust", "// Optimize database queries in Rust");
    emissions.put("python", "# Optimize database queries in Python");
    emissions.put("go", "// Optimize database queries in Go");
    emissions.put("javascript", "// Optimize database queries in JavaScript");
    PSI_Operator {
        id: 6,
        name: owned("OptimizeQueries"),
        domain: owned("optimization"),
        purity: 1,
        arity_in: 1,
        arity_out: 1,
        cost_hint: 15,
        kern_template: owned(OPTIMIZE_QUERIES_TEMPLATE),
        emissions,
    }
}

/// The KERN template of `ApplyRefactor`.
pub const APPLY_REFACTOR_TEMPLATE: &'static str = r#"rule ApplyRefactor: 
    if refactoring_plan_ready() 
    then apply_refactoring()"#;

/// The emissions of `ApplyRefactor`.
pub open spec fn apply_refactor_emissions() -> Map<Seq<char>, Seq<char>> {
    map![
        "rust"@ => "// Apply refactoring in Rust"@,
        "python"@ => "# Apply refactoring in Python"@,
        "go"@ => "// Apply refactoring in Go"@,
        "javascript"@ => "// Apply refactoring in JavaScript"@,
    ]
}

pub fn create_apply_refactor_operator() -> (op: PSI_Operator)
    ensures
        op.id == 7,
        op.name@ == "ApplyRefactor"@,
        op.domain@ == "refactoring"@,
        op.purity == 1,
        op.arity_in == 1,
        op.arity_out == 1,
        op.cost_hint == 20,
        op.kern_template@ == APPLY_REFACTOR_TEMPLATE@,
        op.emissions.wf(),
        text_map(op.emissions@) == apply_refactor_emissions(),
{
    let mut emissions = NameMap::new_texts();
    emissions.put("rust", "// Apply refactoring in Rust");
    emissions.put("python", "# Apply refactoring in Python");
    emissions.put("go", "// Apply refactoring in Go");
    emissions.put("javascript", "// Apply refactoring in JavaScript");
    PSI_Operator {
        id: 7,
        name: owned("ApplyRefactor"),
        domain: owned("refactoring"),
        purity: 1,
        arity_in: 1,
        arity_out: 1,
        cost_hint: 20,
        kern_template: owned(APPLY_REFACTOR_TEMPLATE),
        emissions,
    }
}

/// The KERN template of `Validate`.
pub const VALIDATE_TEMPLATE: &'static str = r#"rule Validate: 
    if code_exists() 
    then validate_code_quality()"#;

/// The emissions of `Validate`.
pub open spec fn validate_emissions() -> Map<Seq<char>, Seq<char>> {
    map![
        "rust"@ => "// Validate code in Rust"@,
        "python"@ => "# Validate code in Python"@,
        "go"@ => "// Validate code in Go"@,
        "javascript"@ => "// Validate code in JavaScript"@,
    ]
}

pub fn create_validate_operator() -> (op: PSI_Operator)
    ensures
        op.id == 8,
        op.name@ == "Validate"@,
        op.domain@ == "validation"@,
        op.purity == 1,
        op.arity_in == 1,
        op.arity_out == 1,
        op.cost_hint == 8,
        op.kern_template@ == VALIDATE_TEMPLATE@,
        op.emissions.wf(),
        text_map(op.emissions@) == validate_emissions(),
{
    let mut emissions = NameMap::new_texts();
    emissions.put("rust", "// Validate code in Rust");
    emissions.put("python", "# Validate code in Python");
    emissions.put("go", "// Validate code in Go");
    emissions.put("javascript", "// Validate code in JavaScript");
    PSI_Operator {
        id: 8,
        name: owned("Validate"),
        domain: owned("validation"),
        purity: 1,
        arity_in: 1,
        arity_out: 1,
        cost_hint: 8,
        kern_template: owned(VALIDATE_TEMPLATE),
        emissions,
    }
}

/// The KERN template of `DetectRaceConditions`.
pub const DETECT_RACE_CONDITIONS_TEMPLATE: &'static str = r#"rule DetectRaceConditions: 
    if has_concurrent_code() 
    then detect_race_conditions()"#;

/// The emissions of `DetectRaceConditions`.
pub open spec fn detect_race_conditions_emissions() -> Map<Seq<char>, Seq<char>> {
    map![
        "rust"@ => "// Detect race conditions in Rust"@,
        "python"@ => "# Detect race conditions in Python"@,
        "go"@ => "// Detect race conditions in Go"@,
        "javascript"@ => "// Detect race conditions in JavaScript"@,
    ]
}

pub fn create_detect_race_conditions_operator() -> (op: PSI_Operator)
    ensures
        op.id == 9,
        op.name@ == "DetectRaceConditions"@,
        op.domain@ == "debugging"@,
        op.purity == 1,
        op.arity_in == 1,
        op.arity_out == 1,
        op.cost_hint == 25,
        op.kern_template@ == DETECT_RACE_CONDITIONS_TEMPLATE@,
        op.emissions.wf(),
        text_map(op.emissions@) == detect_race_conditions_emissions(),
{
    let mut emissions = NameMap::new_texts();
    emissions.put("rust", "// Detect race conditions in Rust");
    emissions.put("python", "# Detect race conditions in Python");
    emissions.put("go", "// Detect race conditions in Go");
    emissions.put("javascript", "// Detect race conditions in JavaScript");
    PSI_Operator {
        id: 9,
        name: owned("DetectRaceConditions"),
        domain: owned("debugging"),
        purity: 1,
        arity_in: 1,
        arity_out: 1,
        cost_hint: 25,
        kern_template: owned(DETECT_RACE_CONDITIONS_TEMPLATE),
        emissions,
    }
}

/// The KERN template of `SuggestFixes`.
pub const SUGGEST_FIXES_TEMPLATE: &'static str = r#"rule SuggestFixes: 
    if issues_found() 
    then suggest_fixes()"#;

/// The emissions of `SuggestFixes`.
pub open spec fn suggest_fixes_emissions() -> Map<Seq<char>, Seq<char>> {
    map![
        "rust"@ => "// Suggest fixes in Rust"@,
        "python"@ => "# Suggest fixes in Python"@,
        "go"@ => "// Suggest fixes in Go"@,
        "javascript"@ => "// Suggest fixes in JavaScript"@,
    ]
}

pub fn create_suggest_fixes_operator() -> (op: PSI_Operator)
    ensures
        op.id == 10,
        op.name@ == "SuggestFixes"@,
        op.domain@ == "debugging"@,
        op.purity == 1,
        op.arity_in == 1,
        op.arity_out == 1,
        op.cost_hint == 18,
        op.kern_template@ == SUGGEST_FIXES_TEMPLATE@,
        op.emissions.wf(),
        text_map(op.emissions@) == suggest_fixes_emissions(),
{
    let mut emissions = NameMap::new_texts();
    emissions.put("rust", "// Suggest fixes in Rust");
    emissions.put("python", "# Suggest fixes in Python");
    emissions.put("go", "// Suggest fixes in Go");
    emissions.put("javascript", "// Suggest fixes in JavaScript");
    PSI_Operator {
        id: 10,
        name: owned("SuggestFixes"),
        domain: owned("debugging"),
        purity: 1,
        arity_in: 1,
        arity_out: 1,
        cost_hint: 18,
        kern_template: owned(SUGGEST_FIXES_TEMPLATE),
        emissions,
    }
}

/// The KERN template of `ParseAST`.
pub const PARSE_A_S_T_TEMPLATE: &'static str = r#"rule ParseAST: 
    if has_source_code() 
    then parse_abstract_syntax_tree()"#;

/// The emissions of `ParseAST`.
pub open spec fn parse_a_s_t_emissions() -> Map<Seq<char>, Seq<char>> {
    map![
        "rust"@ => "// Parse AST in Rust"@,
        "python"@ => "# Parse AST in Python"@,
        "go"@ => "// Parse AST in Go"@,
        "javascript"@ => "// Parse AST in JavaScript"@,
    ]
}

pub fn create_parse_ast_operator() -> (op: PSI_Operator)
    ensures
        op.id == 11,
        op.name@ == "ParseAST"@,
        op.domain@ == "parsing"@,
        op.purity == 1,
        op.arity_in == 1,
        op.arity_out == 1,
        op.cost_hint == 10,
        op.kern_template@ == PARSE_A_S_T_TEMPLATE@,
        op.emissions.wf(),
        text_map(op.emissions@) == parse_a_s_t_emissions(),
{
    let mut emissions = NameMap::new_texts();
    emissions.put("rust", "// Parse AST in Rust");
    emissions.put("python", "# Parse AST in Python");
    emissions.put("go", "// Parse AST in Go");
    emissions.put("javascript", "// Parse AST in JavaScript");
    PSI_Operator {
        id: 11,
        name: owned("ParseAST"),
        domain: owned("parsing"),
        purity: 1,
        arity_in: 1,
        arity_out: 1,
        cost_hint: 10,
        kern_template: owned(PARSE_A_S_T_TEMPLATE),
        emissions,
    }
}

/// The KERN template of `MapToLanguageTemplates`.
pub const MAP_TO_LANGUAGE_TEMPLATES_TEMPLATE: &'static str = r#"rule MapToLanguageTemplates: 
    if has_ast() 
    then map_to_target_language_templates()"#;

/// The emissions of `MapToLanguageTemplates`.
pub open spec fn map_to_language_templates_emissions() -> Map<Seq<char>, Seq<char>> {
    map![
        "rust"@ => "// Map to language templates in Rust"@,
        "python"@ => "# Map to language templates in Python"@,
        "go"@ => "// Map to language templates in Go"@,
        "javascript"@ => "// Map to language templates in JavaScript"@,
    ]
}

pub fn create_map_to_language_templates_operator() -> (op: PSI_Operator)
    ensures
        op.id == 12,
        op.name@ == "MapToLanguageTemplates"@,
        op.domain@ == "translation"@,
        op.purity == 1,
        op.arity_in == 1,
        op.arity_out == 1,
        op.cost_hint == 14,
        op.kern_template@ == MAP_TO_LANGUAGE_TEMPLATES_TEMPLATE@,
        op.emissions.wf(),
        text_map(op.emissions@) == map_to_language_templates_emissions(),
{
    let mut emissions = NameMap::new_texts();
    emissions.put("rust", "// Map to language templates in Rust");
    emissions.put("python", "# Map to language templates in Python");
    emissions.put("go", "// Map to language templates in Go");
    emissions.put("javascript", "// Map to language templates in JavaScript");
    PSI_Operator {
        id: 12,
        name: owned("MapToLanguageTemplates"),
        domain: owned("translation"),
        purity: 1,
        arity_in: 1,
        arity_out: 1,
        cost_hint: 14,
        kern_template: owned(MAP_TO_LANGUAGE_TEMPLATES_TEMPLATE),
        emissions,
    }
}

/// The KERN template of `EmitCode`.
pub const EMIT_CODE_TEMPLATE: &'static str = r#"rule EmitCode: 
    if has_translated_ast() 
    then emit_target_language_code()"#;

/// The emissions of `EmitCode`.
pub open spec fn emit_code_emissions() -> Map<Seq<char>, Seq<char>> {
    map![
        "rust"@ => "// Emit code in Rust"@,
        "python"@ => "# Emit code in Python"@,
        "go"@ => "// Emit code in Go"@,
        "javascript"@ => "// Emit code in JavaScript"@,
    ]
}

pub fn create_emit_code_operator() -> (op: PSI_Operator)
    ensures
        op.id == 13,
        op.name@ == "EmitCode"@,
        op.domain@ == "code_generation"@,
        op.purity == 1,
        op.arity_in == 1,
        op.arity_out == 1,
        op.cost_hint == 12,
        op.kern_template@ == EMIT_CODE_TEMPLATE@,
        op.emissions.wf(),
        text_map(op.emissions@) == emit_code_emissions(),
{
    let mut emissions = NameMap::new_texts();
    emissions.put("rust", "// Emit code in Rust");
    emissions.put("python", "# Emit code in Python");
    emissions.put("go", "// Emit code in Go");
    emissions.put("javascript", "// Emit code in JavaScript");
    PSI_Operator {
        id: 13,
        name: owned("EmitCode"),
        domain: owned("code_generation"),
        purity: 1,
        arity_in: 1,
        arity_out: 1,
        cost_hint: 12,
        kern_template: owned(EMIT_CODE_TEMPLATE),
        emissions,
    }
}

/// The KERN template of `MapOperators`.
pub const MAP_OPERATORS_TEMPLATE: &'static str = r#"rule MapOperators: 
    if has_ast() 
    then map_to_operators()"#;

/// The emissions of `MapOperators`.
pub open spec fn map_operators_emissions() -> Map<Seq<char>, Seq<char>> {
    map![
        "rust"@ => "// Map operators in Rust"@,
        "python"@ => "# Map operators in Python"@,
        "go"@ => "// Map operators in Go"@,
        "javascript"@ => "// Map operators in JavaScript"@,
    ]
}

pub fn create_map_operators_operator() -> (op: PSI_Operator)
    ensures
        op.id == 14,
        op.name@ == "MapOperators"@,
        op.domain@ == "analysis"@,
        op.purity == 1,
        op.arity_in == 1,
        op.arity_out == 1,
        op.cost_hint == 9,
        op.kern_template@ == MAP_OPERATORS_TEMPLATE@,
        op.emissions.wf(),
        text_map(op.emissions@) == map_operators_emissions(),
{
    let mut emissions = NameMap::new_texts();
    emissions.put("rust", "// Map operators in Rust");
    emissions.put("python", "# Map operators in Python");
    emissions.put("go", "// Map operators in Go");
    emissions.put("javascript", "// Map operators in JavaScript");
    PSI_Operator {
        id: 14,
        name: owned("MapOperators"),
        domain: owned("analysis"),
        purity: 1,
        arity_in: 1,
        arity_out: 1,
        cost_hint: 9,
        kern_template: owned(MAP_OPERATORS_TEMPLATE),
        emissions,
    }
}

/// The KERN template of `GenerateExplanation`.
pub const GENERATE_EXPLANATION_TEMPLATE: &'static str = r#"rule GenerateExplanation: 
    if has_operators() 
    then generate_explanation_text()"#;

/// The emissions of `GenerateExplanation`.
pub open spec fn generate_explanation_emissions() -> Map<Seq<char>, Seq<char>> {
    map![
        "rust"@ => "// Generate explanation in Rust"@,
        "python"@ => "# Generate explanation in Python"@,
        "go"@ => "// Generate explanation in Go"@,
        "javascript"@ => "// Generate explanation in JavaScript"@,
    ]
}

pub fn create_generate_explanation_operator() -> (op: PSI_Operator)
    ensures
        op.id == 15,
        op.name@ == "GenerateExplanation"@,
        op.domain@ == "explanation"@,
        op.purity == 1,
        op.arity_in == 1,
        op.arity_out == 1,
        op.cost_hint == 16,
        op.kern_template@ == GENERATE_EXPLANATION_TEMPLATE@,
        op.emissions.wf(),
        text_map(op.emissions@) == generate_explanation_emissions(),
{
    let mut emissions = NameMap::new_texts();
    emissions.put("rust", "// Generate explanation in Rust");
    emissions.put("python", "# Generate explanation in Python");
    emissions.put("go", "// Generate explanation in Go");
    emissions.put("javascript", "// Generate explanation in JavaScript");
    PSI_Operator {
        id: 15,
        name: owned("GenerateExplanation"),
        domain: owned("explanation"),
        purity: 1,
        arity_in: 1,
        arity_out: 1,
        cost_hint: 16,
        kern_template: owned(GENERATE_EXPLANATION_TEMPLATE),
        emissions,
    }
}

/// The operator names of the default knowledge base, in order.
pub open spec fn default_operator_names() -> Seq<Seq<char>> {
    seq!["DefineEntities"@, "CreateRoutes"@, "ImplementAuth"@, "WriteTests"@, "AnalyzePatterns"@, "OptimizeQueries"@, "ApplyRefactor"@, "Validate"@, "DetectRaceConditions"@, "SuggestFixes"@, "ParseAST"@, "MapToLanguageTemplates"@, "EmitCode"@, "MapOperators"@, "GenerateExplanation"@, "MultiModalCodeGeneration"@, "ImageGeneration"@]
}

/// A knowledge base named `default-brain` with the common operators, those
/// of the other domains and the bases of the code and image generation
/// operators; no meta-programs or heuristics.
pub fn create_default_brain() -> (brain: PSI_Brain)
    ensures
        brain.name@ == "default-brain"@,
        brain.operators@.len() == 17,
        forall|i: int| 0 <= i < 17 ==> #[trigger] brain.operators@[i].name@ == default_operator_names()[i],
        brain.meta_programs@.len() == 0,
        brain.heuristics@.len() == 0,
{
    let mut brain = PSI_Brain::new("default-brain");
    brain.add_operator(common_operators::create_define_entities_operator());
    brain.add_operator(common_operators::create_create_routes_operator());
    brain.add_operator(common_operators::create_implement_auth_operator());
    brain.add_operator(common_operators::create_write_tests_operator());
    brain.add_operator(create_analyze_patterns_operator());
    brain.add_operator(create_optimize_queries_operator());
    brain.add_operator(create_apply_refactor_operator());
    brain.add_operator(create_validate_operator());
    brain.add_operator(create_detect_race_conditions_operator());
    brain.add_operator(create_suggest_fixes_operator());
    brain.add_operator(create_parse_ast_operator());
    brain.add_operator(create_map_to_language_templates_operator());
    brain.add_operator(create_emit_code_operator());
    brain.add_operator(create_map_operators_operator());
    brain.add_operator(create_generate_explanation_operator());
    let mm_code_gen = multimodal_operators::create_code_generation_operator();
    brain.add_operator(mm_code_gen.base_operator);
    let mm_image_gen = multimodal_operators::create_image_generation_operator();
    brain.add_operator(mm_image_gen.base_operator);
    brain
}

} // verus!
