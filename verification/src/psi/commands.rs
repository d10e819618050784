//! What a request asks for: its kind, its languages, and the text of a batch task.
use vstd::prelude::*;
use crate::text::{has_infix, has_prefix, lowercase, owned, str_contains, str_eq, str_starts_with, to_lowercase, join2};
use crate::psi::PSI_Brain;

verus! {

/// The kinds of request, by their first word.
#[derive(Debug, Clone, Copy, PartialEq, Eq)]
pub enum CommandKind {
    Generate,
    Refactor,
    Debug,
    Translate,
    Explain,
    /// anything else: a meta-program is chosen for it
    Other,
}

/// The kind of a request: by the word it begins with, in lower case.
pub open spec fn command_kind(q: Seq<char>) -> CommandKind {
    if has_prefix(q, "generate"@) {
        CommandKind::Generate
    } else if has_prefix(q, "refactor"@) {
        CommandKind::Refactor
    } else if has_prefix(q, "debug"@) {
        CommandKind::Debug
    } else if has_prefix(q, "translate"@) {
        CommandKind::Translate
    } else if has_prefix(q, "explain"@) {
        CommandKind::Explain
    } else {
        CommandKind::Other
    }
}

/// The kind of a request.
pub fn classify_command(cmd: &str) -> (k: CommandKind)
    ensures
        k == command_kind(lowercase(cmd@)),
{
    let lower = to_lowercase(cmd);
    let l = lower.as_str();
    if str_starts_with(l, "generate") {
        CommandKind::Generate
    } else if str_starts_with(l, "refactor") {
        CommandKind::Refactor
    } else if str_starts_with(l, "debug") {
        CommandKind::Debug
    } else if str_starts_with(l, "translate") {
        CommandKind::Translate
    } else if str_starts_with(l, "explain") {
        CommandKind::Explain
    } else {
        CommandKind::Other
    }
}

/// The target language a request names (" in rust", " in python", " in go",
/// " in javascript" or " in js"), else `default`.
pub open spec fn language_of(cmd: Seq<char>, default: Seq<char>) -> Seq<char> {
    if has_infix(cmd, " in rust"@) {
        "rust"@
    } else if has_infix(cmd, " in python"@) {
        "python"@
    } else if has_infix(cmd, " in go"@) {
        "go"@
    } else if has_infix(cmd, " in javascript"@) || has_infix(cmd, " in js"@) {
        "javascript"@
    } else {
        default
    }
}

/// The target language a request names, else `default`.
pub fn requested_language(cmd: &str, default: &str) -> (r: String)
    ensures
        r@ == language_of(cmd@, default@),
{
    if str_contains(cmd, " in rust") {
        owned("rust")
    } else if str_contains(cmd, " in python") {
        owned("python")
    } else if str_contains(cmd, " in go") {
        owned("go")
    } else if str_contains(cmd, " in javascript") || str_contains(cmd, " in js") {
        owned("javascript")
    } else {
        owned(default)
    }
}

/// The source and target languages of a translation request: python to rust
/// when both are named, python to go, go to rust, javascript to rust; else
/// `default` to rust.
pub open spec fn translation_of(cmd: Seq<char>, default: Seq<char>) -> (Seq<char>, Seq<char>) {
    if has_infix(cmd, "python"@) && has_infix(cmd, "rust"@) {
        ("python"@, "rust"@)
    } else if has_infix(cmd, "python"@) && has_infix(cmd, "go"@) {
        ("python"@, "go"@)
    } else if has_infix(cmd, "go"@) && has_infix(cmd, "rust"@) {
        ("go"@, "rust"@)
    } else if has_infix(cmd, "javascript"@) && has_infix(cmd, "rust"@) {
        ("javascript"@, "rust"@)
    } else {
        (default, "rust"@)
    }
}

/// The source and target languages of a translation request.
pub fn translation_languages(cmd: &str, default: &str) -> (r: (String, String))
    ensures
        (r.0@, r.1@) == translation_of(cmd@, default@),
{
    let python = str_contains(cmd, "python");
    let rust = str_contains(cmd, "rust");
    let go = str_contains(cmd, "go");
    let javascript = str_contains(cmd, "javascript");
    if python && rust {
        (owned("python"), owned("rust"))
    } else if rust && python {
        (owned("rust"), owned("python"))
    } else if python && go {
        (owned("python"), owned("go"))
    } else if go && rust {
        (owned("go"), owned("rust"))
    } else if javascript && rust {
        (owned("javascript"), owned("rust"))
    } else {
        (owned(default), owned("rust"))
    }
}

/// The request a batch task stands for: the task, and " for " and its
/// specification when it has one.
pub open spec fn batch_request(task: Seq<char>, spec: Option<Seq<char>>) -> Seq<char> {
    match spec {
        Some(s) => task + " for "@ + s,
        None => task,
    }
}

/// The request a batch task stands for.
pub fn batch_command(task: &str, spec: Option<&str>) -> (r: String)
    ensures
        r@ == batch_request(task@, match spec { Some(s) => Some(s@), None => None }),
{
    match spec {
        Some(s) => {
            let mut r = join2(task, " for ");
            r.append(s);
            r
        },
        None => owned(task),
    }
}

/// The index of the first meta-program named `name`, if any.
pub fn find_meta_program(brain: &PSI_Brain, name: &str) -> (r: Option<usize>)
    ensures
        match r {
            Some(i) => i < brain.meta_programs@.len() && brain.meta_programs@[i as int].name@ == name@
                && forall|k: int| 0 <= k < i ==> (#[trigger] brain.meta_programs@[k]).name@ != name@,
            None => forall|k: int| 0 <= k < brain.meta_programs@.len() ==> (#[trigger] brain.meta_programs@[k]).name@ != name@,
        },
{
    let mut i: usize = 0;
    while i < brain.meta_programs.len()
        invariant
            i <= brain.meta_programs@.len(),
            forall|k: int| 0 <= k < i ==> (#[trigger] brain.meta_programs@[k]).name@ != name@,
        decreases brain.meta_programs@.len() - i,
    {
        if str_eq(brain.meta_programs[i].name.as_str(), name) {
            return Some(i);
        }
        i += 1;
    }
    None
}

/// Whether a line ends the session: "exit" or "quit", in any ASCII case.
pub fn is_exit_command(cmd: &str) -> (r: bool)
    ensures
        r == (crate::text::eq_ignoring_ascii_case(cmd@, "exit"@) || crate::text::eq_ignoring_ascii_case(cmd@, "quit"@)),
{
    crate::text::str_eq_ignore_ascii_case(cmd, "exit") || crate::text::str_eq_ignore_ascii_case(cmd, "quit")
}

} // verus!
