//! Predefined language mappings.
use vstd::prelude::*;
use crate::maps::{NameMap, text_map};
use crate::psi::language_mappings::LanguageMapping;

verus! {

/// The rules of the `rust_to_python` mapping.
pub open spec fn rust_to_python_rules() -> Map<Seq<char>, Seq<char>> {
    map![
        "struct"@ => "class"@,
        "impl"@ => "class"@,
        "fn"@ => "def"@,
        "let"@ => ""@,
        "mut"@ => ""@,
        "String"@ => "str"@,
        "Vec<T>"@ => "List[T]"@,
        "HashMap<K, V>"@ => "Dict[K, V]"@,
    ]
}

/// The templates of the `rust_to_python` mapping.
pub open spec fn rust_to_python_templates() -> Map<Seq<char>, Seq<char>> {
    map![
        "function"@ => "def {name}({params}):\n    {body}"@,
        "struct"@ => "class {name}:\n    def __init__(self, {fields}):\n        {field_assignments}"@,
    ]
}

pub fn create_rust_to_python_mapping() -> (m: LanguageMapping)
    ensures
        m.id@ == "rust_to_python"@,
        m.source_language@ == "rust"@,
        m.target_language@ == "python"@,
        m.translation_rules.wf(),
        m.syntax_templates.wf(),
        text_map(m.translation_rules@) == rust_to_python_rules(),
        text_map(m.syntax_templates@) == rust_to_python_templates(),
{
    let mut rules = NameMap::new_texts();
    rules.put("struct", "class");
    rules.put("impl", "class");
    rules.put("fn", "def");
    rules.put("let", "");
    rules.put("mut", "");
    rules.put("String", "str");
    rules.put("Vec<T>", "List[T]");
    rules.put("HashMap<K, V>", "Dict[K, V]");
    let mut templates = NameMap::new_texts();
    templates.put("function", "def {name}({params}):\n    {body}");
    templates.put("struct", "class {name}:\n    def __init__(self, {fields}):\n        {field_assignments}");
    LanguageMapping::new("rust_to_python", "rust", "python", rules, templates)
}

/// The rules of the `python_to_rust` mapping.
pub open spec fn python_to_rust_rules() -> Map<Seq<char>, Seq<char>> {
    map![
        "class"@ => "struct"@,
        "def"@ => "fn"@,
        "self"@ => "self"@,
        "str"@ => "String"@,
        "List[T]"@ => "Vec<T>"@,
        "Dict[K, V]"@ => "HashMap<K, V>"@,
    ]
}

/// The templates of the `python_to_rust` mapping.
pub open spec fn python_to_rust_templates() -> Map<Seq<char>, Seq<char>> {
    map![
        "function"@ => "fn {name}({params}) -> {return_type} {\n    {body}\n}"@,
        "struct"@ => "struct {name} {\n    {fields}\n}"@,
    ]
}

pub fn create_python_to_rust_mapping() -> (m: LanguageMapping)
    ensures
        m.id@ == "python_to_rust"@,
        m.source_language@ == "python"@,
        m.target_language@ == "rust"@,
        m.translation_rules.wf(),
        m.syntax_templates.wf(),
        text_map(m.translation_rules@) == python_to_rust_rules(),
        text_map(m.syntax_templates@) == python_to_rust_templates(),
{
    let mut rules = NameMap::new_texts();
    rules.put("class", "struct");
    rules.put("def", "fn");
    rules.put("self", "self");
    rules.put("str", "String");
    rules.put("List[T]", "Vec<T>");
    rules.put("Dict[K, V]", "HashMap<K, V>");
    let mut templates = NameMap::new_texts();
    templates.put("function", "fn {name}({params}) -> {return_type} {\n    {body}\n}");
    templates.put("struct", "struct {name} {\n    {fields}\n}");
    LanguageMapping::new("python_to_rust", "python", "rust", rules, templates)
}

/// The rules of the `rust_to_go` mapping.
pub open spec fn rust_to_go_rules() -> Map<Seq<char>, Seq<char>> {
    map![
        "struct"@ => "type"@,
        "impl"@ => "func"@,
        "fn"@ => "func"@,
        "String"@ => "string"@,
        "Vec<T>"@ => "[]T"@,
        "HashMap<K, V>"@ => "map[K]V"@,
    ]
}

/// The templates of the `rust_to_go` mapping.
pub open spec fn rust_to_go_templates() -> Map<Seq<char>, Seq<char>> {
    map![
        "function"@ => "func {name}({params} {return_type}) {\n    {body}\n}"@,
        "struct"@ => "type {name} struct {\n    {fields}\n}"@,
    ]
}

pub fn create_rust_to_go_mapping() -> (m: LanguageMapping)
    ensures
        m.id@ == "rust_to_go"@,
        m.source_language@ == "rust"@,
        m.target_language@ == "go"@,
        m.translation_rules.wf(),
        m.syntax_templates.wf(),
        text_map(m.translation_rules@) == rust_to_go_rules(),
        text_map(m.syntax_templates@) == rust_to_go_templates(),
{
    let mut rules = NameMap::new_texts();
    rules.put("struct", "type");
    rules.put("impl", "func");
    rules.put("fn", "func");
    rules.put("String", "string");
    rules.put("Vec<T>", "[]T");
    rules.put("HashMap<K, V>", "map[K]V");
    let mut templates = NameMap::new_texts();
    templates.put("function", "func {name}({params} {return_type}) {\n    {body}\n}");
    templates.put("struct", "type {name} struct {\n    {fields}\n}");
    LanguageMapping::new("rust_to_go", "rust", "go", rules, templates)
}

} // verus!
