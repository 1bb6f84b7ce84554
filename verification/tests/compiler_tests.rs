use yarn_slinger::compiler::{
    add_initial_value_registrations, add_tracking_declarations, Compilation,
    CompilationIntermediate, Compiler,
};
use yarn_slinger::declaration::{Declaration, DeclarationSource};
use yarn_slinger::diagnostic::{deduplicate_diagnostics, Diagnostic, DiagnosticSeverity};
use yarn_slinger::library::{Callable, Library};
use yarn_slinger::program::Program;
use yarn_slinger::types::{SubTypeOf, Type};
use yarn_slinger::value::{Operand, YarnValue};

fn lookup_initial(program: &Program, name: &str) -> Option<Operand> {
    for (k, v) in &program.initial_values {
        if k == name {
            return Some(v.clone());
        }
    }
    None
}

#[test]
fn initial_values_match_declared_defaults() {
    let result = Compiler::from_test_source(
        "<<declare $num = 42>>\n<<declare $txt = \"hi\">>\n<<declare $flag = true>>\nhello\n",
    )
    .compile();
    assert!(result.diagnostics.is_empty(), "{:?}", result.diagnostics);
    let program = result.program.expect("program");
    assert_eq!(lookup_initial(&program, "$num"), Some(Operand::NumberValue(42)));
    assert_eq!(
        lookup_initial(&program, "$txt"),
        Some(Operand::StringValue("hi".to_owned()))
    );
    assert_eq!(lookup_initial(&program, "$flag"), Some(Operand::BoolValue(true)));
}

#[test]
fn null_default_value_is_one_error_diagnostic() {
    let decl = Declaration::default()
        .with_name("$broken".to_owned())
        .with_type(Type::Number)
        .with_source(DeclarationSource::External);
    let state = CompilationIntermediate {
        known_variable_declarations: vec![decl],
        derived_variable_declarations: vec![],
        tracking_nodes: vec![],
        diagnostics: vec![],
        result: Some(Compilation {
            program: Some(Program { nodes: vec![], initial_values: vec![] }),
            diagnostics: vec![],
            string_table: vec![],
            declarations: vec![],
        }),
    };
    let state = add_initial_value_registrations(state);
    let compilation = state.result.expect("result");
    let errors: Vec<_> = compilation
        .diagnostics
        .iter()
        .filter(|d| d.severity == DiagnosticSeverity::Error)
        .collect();
    assert_eq!(errors.len(), 1);
    assert!(errors[0].message.contains("$broken"));
    assert!(errors[0].message.contains("null default value"));
}

#[test]
fn compilation_with_error_has_no_program() {
    // assigning to an undeclared variable raises an error
    let result = Compiler::from_test_source("<<set $missing = 1>>\n").compile();
    assert!(result.program.is_none());
    assert!(result
        .diagnostics
        .iter()
        .any(|d| d.severity == DiagnosticSeverity::Error));
}

#[test]
fn deduplication_is_idempotent_on_lists() {
    let diags = vec![
        Diagnostic::from_message("one".to_owned()),
        Diagnostic::from_message("two".to_owned()),
        Diagnostic::from_message("one".to_owned()),
        Diagnostic::new(DiagnosticSeverity::Warning, "one".to_owned()),
    ];
    let once = deduplicate_diagnostics(&diags);
    let twice = deduplicate_diagnostics(&once);
    assert_eq!(once.len(), 3);
    assert_eq!(once.len(), twice.len());
    for (a, b) in once.iter().zip(twice.iter()) {
        assert_eq!(a.message, b.message);
        assert_eq!(a.severity, b.severity);
    }
}

#[test]
fn tracking_nodes_get_number_declarations() {
    let source = "title: Watched\ntracking: always\n---\nhello\n===\n";
    let result = Compiler::new().add_file("test", source).compile();
    assert!(result.diagnostics.is_empty(), "{:?}", result.diagnostics);
    let decl = result
        .declarations
        .iter()
        .find(|d| d.name == "$Yarn.Internal.Visiting.Watched")
        .expect("tracking declaration");
    assert!(matches!(decl.ty, Some(Type::Number)));
    assert_eq!(decl.default_value, Some(YarnValue::Number(0)));
    let program = result.program.expect("program");
    assert_eq!(
        lookup_initial(&program, "$Yarn.Internal.Visiting.Watched"),
        Some(Operand::NumberValue(0))
    );
}

#[test]
fn tracking_declarations_pass_adds_to_both_sets() {
    let state = CompilationIntermediate {
        known_variable_declarations: vec![],
        derived_variable_declarations: vec![],
        tracking_nodes: vec!["NodeA".to_owned(), "NodeB".to_owned()],
        diagnostics: vec![],
        result: None,
    };
    let state = add_tracking_declarations(state);
    assert_eq!(state.known_variable_declarations.len(), 2);
    assert_eq!(state.derived_variable_declarations.len(), 2);
    assert_eq!(
        state.known_variable_declarations[0].name,
        "$Yarn.Internal.Visiting.NodeA"
    );
    assert_eq!(
        state.derived_variable_declarations[1].name,
        "$Yarn.Internal.Visiting.NodeB"
    );
    assert!(state.derived_variable_declarations[1]
        .description
        .contains("tracking visits of node NodeB"));
}

#[test]
fn subtype_relation_follows_the_rules() {
    assert!(Type::Number.is_sub_type_of(&Type::Any));
    assert!(Type::Undefined.is_sub_type_of(&Type::Any));
    assert!(Type::Number.is_sub_type_of(&Type::Number));
    assert!(!Type::Number.is_sub_type_of(&Type::String));
    assert!(!Type::Undefined.is_sub_type_of(&Type::Number));
}

#[test]
fn unknown_function_call_is_an_error() {
    let result =
        Compiler::from_test_source("<<declare $x = 0>>\n<<set $x = Nope(1)>>\n").compile();
    assert!(result.program.is_none());
    assert!(result
        .diagnostics
        .iter()
        .any(|d| d.message.contains("Unknown function Nope")));
}

#[test]
fn argument_type_mismatch_is_an_error() {
    let lib = Library::new().with_function("AddInt", Callable::AddNumbers);
    let result = Compiler::from_test_source(
        "<<declare $x = 0>>\n<<set $x = AddInt(1, \"two\")>>\n",
    )
    .extend_library(lib)
    .compile();
    assert!(result.program.is_none());
    assert!(result
        .diagnostics
        .iter()
        .any(|d| d.message.contains("Argument type mismatch")));
}

#[test]
fn analysis_flags_assigned_never_read() {
    let result = Compiler::from_test_source(
        "<<declare $foo = 0>>\n<<declare $bar = 0>>\n<<set $bar = $foo>>\n<<set $foo = 1>>\nhello\n",
    )
    .compile();
    assert!(result.diagnostics.is_empty(), "{:?}", result.diagnostics);
    let program = result.program.expect("program");
    let diagnoses: Vec<_> = yarn_slinger::analysis::analyse(&program)
        .into_iter()
        .filter(|d| d.severity == yarn_slinger::analysis::DiagnosisSeverity::Warning)
        .collect();
    assert_eq!(diagnoses.len(), 1);
    assert!(diagnoses[0]
        .message
        .contains("Variable $bar is assigned, but never read from"));
}

#[test]
fn analysis_has_no_false_positives_when_all_variables_are_read() {
    let result = Compiler::from_test_source(
        "<<declare $foo = 0>>\n<<declare $bar = 0>>\n<<set $bar = $foo>>\n<<set $foo = $bar>>\n",
    )
    .compile();
    let program = result.program.expect("program");
    let diagnoses = yarn_slinger::analysis::analyse(&program);
    assert!(diagnoses.is_empty());
}

#[test]
fn duplicate_node_titles_are_an_error() {
    let source = "title: A\n---\nx\n===\ntitle: A\n---\ny\n===\n";
    let result = Compiler::new().add_file("test", source).compile();
    assert!(result.program.is_none());
    assert!(result
        .diagnostics
        .iter()
        .any(|d| d.message.contains("More than one node is titled A")));
}

#[test]
fn compiling_nothing_succeeds_with_an_empty_program() {
    let result = Compiler::new().compile();
    assert!(result.diagnostics.is_empty());
    let program = result.program.expect("program");
    assert!(program.nodes.is_empty());
}

#[test]
fn explicit_line_ids_and_tags_are_recorded() {
    let result = Compiler::from_test_source("hello there #line:custom1 #greeting\n").compile();
    assert!(result.diagnostics.is_empty(), "{:?}", result.diagnostics);
    let entry = result
        .string_table
        .iter()
        .find(|s| s.id.0 == "line:custom1")
        .expect("entry");
    assert_eq!(entry.text, "hello there");
    assert_eq!(entry.tags, vec!["greeting".to_owned()]);
    let tags = result
        .line_metadata(&yarn_slinger::program::LineId("line:custom1".to_owned()))
        .expect("metadata");
    assert_eq!(tags, vec!["greeting".to_owned()]);
    assert!(result
        .line_metadata(&yarn_slinger::program::LineId("line:absent".to_owned()))
        .is_none());
}
