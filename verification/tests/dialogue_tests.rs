use yarn_slinger::compiler::Compiler;
use yarn_slinger::library::{Callable, Library};
use yarn_slinger::value::YarnValue;
use yarn_slinger::vm::{Dialogue, DialogueError, DialogueEvent, OptionId};

fn dialogue_for(source: &str) -> Dialogue {
    let result = Compiler::from_test_source(source).compile();
    assert!(result.diagnostics.is_empty(), "{:?}", result.diagnostics);
    let mut dialogue = Dialogue::new();
    dialogue.replace_program(result.program.expect("program"));
    dialogue.set_string_table(result.string_table);
    dialogue
}

#[test]
fn test_selecting_option_from_inside_option_callback() {
    let result = Compiler::from_test_source("-> option 1\n->option 2\nfinal line\n")
        .compile();
    assert!(result.diagnostics.is_empty(), "{:?}", result.diagnostics);
    let mut dialogue = Dialogue::new();
    dialogue.replace_program(result.program.unwrap());
    dialogue.set_string_table(result.string_table);
    dialogue.set_node("Start").unwrap();

    let mut saw_options = false;
    let mut saw_line = false;
    let mut saw_complete = false;
    while !dialogue.is_waiting_for_options() {
        let Some(events) = dialogue.next() else {
            break;
        };
        for event in events {
            match event {
                DialogueEvent::Line(line) => {
                    assert_eq!(line.text, "final line");
                    saw_line = true;
                }
                DialogueEvent::Options(options) => {
                    let actual: Vec<(String, bool)> = options
                        .into_iter()
                        .map(|o| (o.line.text, o.is_available))
                        .collect();
                    assert_eq!(
                        actual,
                        vec![
                            ("option 1".to_owned(), true),
                            ("option 2".to_owned(), true)
                        ]
                    );
                    saw_options = true;
                    dialogue
                        .set_selected_option(OptionId::construct_for_debugging(0))
                        .unwrap();
                }
                DialogueEvent::DialogueComplete => {
                    saw_complete = true;
                }
                DialogueEvent::Command(_)
                | DialogueEvent::NodeComplete(_)
                | DialogueEvent::NodeStart(_)
                | DialogueEvent::LineHints(_) => {}
            }
        }
        if saw_complete {
            break;
        }
    }
    assert!(saw_options);
    assert!(saw_line);
    assert!(saw_complete);
}

#[test]
fn current_node_is_cleared_after_completion() {
    let mut dialogue = dialogue_for("only line\n");
    dialogue.set_node("Start").unwrap();
    assert_eq!(dialogue.current_node(), Some("Start".to_owned()));
    let mut complete = false;
    for _ in 0..10 {
        let Some(events) = dialogue.next() else {
            break;
        };
        if events
            .iter()
            .any(|e| matches!(e, DialogueEvent::DialogueComplete))
        {
            complete = true;
            break;
        }
    }
    assert!(complete);
    assert!(dialogue.current_node().is_none());
    assert!(dialogue.next().is_none());
}

#[test]
fn option_ids_count_up_from_zero() {
    let mut dialogue = dialogue_for("-> a\n-> b\n-> c\ndone\n");
    dialogue.set_node("Start").unwrap();
    let mut checked = false;
    for _ in 0..10 {
        if dialogue.is_waiting_for_options() {
            break;
        }
        let Some(events) = dialogue.next() else {
            break;
        };
        for event in events {
            if let DialogueEvent::Options(options) = event {
                let ids: Vec<usize> = options.iter().map(|o| o.id.0).collect();
                assert_eq!(ids, vec![0, 1, 2]);
                checked = true;
            }
        }
        if checked {
            break;
        }
    }
    assert!(checked);
}

#[test]
fn two_options_then_shared_line_batches() {
    let mut dialogue = dialogue_for("-> option 1\n->option 2\nfinal line\n");
    dialogue.set_node("Start").unwrap();
    // first interesting batch: the option set
    let events = dialogue.next().expect("first batch");
    let options: Vec<_> = events
        .iter()
        .filter_map(|e| match e {
            DialogueEvent::Options(o) => Some(o),
            _ => None,
        })
        .collect();
    assert_eq!(options.len(), 1);
    assert_eq!(options[0].len(), 2);
    // an out-of-range id is an invalid selection
    assert_eq!(
        dialogue.set_selected_option(OptionId::construct_for_debugging(7)),
        Err(DialogueError::InvalidSelection)
    );
    dialogue
        .set_selected_option(OptionId::construct_for_debugging(0))
        .unwrap();
    // second batch: the shared line
    let events = dialogue.next().expect("second batch");
    assert!(events
        .iter()
        .any(|e| matches!(e, DialogueEvent::Line(line) if line.text == "final line")));
    // third batch: completion
    let events = dialogue.next().expect("third batch");
    assert!(events
        .iter()
        .any(|e| matches!(e, DialogueEvent::DialogueComplete)));
}

#[test]
fn selecting_without_options_is_invalid() {
    let mut dialogue = dialogue_for("just text\n");
    dialogue.set_node("Start").unwrap();
    assert_eq!(
        dialogue.set_selected_option(OptionId::construct_for_debugging(0)),
        Err(DialogueError::InvalidOperation)
    );
}

#[test]
fn set_node_reports_missing_nodes() {
    let mut empty = Dialogue::new();
    assert_eq!(
        empty.set_node("Start"),
        Err(DialogueError::NoProgramLoaded)
    );
    let mut dialogue = dialogue_for("hello\n");
    assert_eq!(
        dialogue.set_node("THIS NODE DOES NOT EXIST"),
        Err(DialogueError::NodeNotFound)
    );
    assert!(dialogue.set_node("Start").is_ok());
}

#[test]
fn node_exists_and_unload_all() {
    let mut dialogue = dialogue_for("hello\n");
    assert!(dialogue.node_exists("Start"));
    assert!(!dialogue.node_exists("Absent"));
    dialogue.unload_all();
    assert!(!dialogue.node_exists("Start"));
}

#[test]
fn stop_clears_the_current_node() {
    let mut dialogue = dialogue_for("hello\n");
    dialogue.set_node("Start").unwrap();
    assert_eq!(dialogue.current_node(), Some("Start".to_owned()));
    dialogue.stop();
    assert!(dialogue.current_node().is_none());
}

#[test]
fn line_hints_list_the_nodes_line_ids() {
    let mut dialogue = dialogue_for("first\nsecond\n");
    dialogue = dialogue.with_should_send_line_hints();
    dialogue.set_node("Start").unwrap();
    let events = dialogue.next().expect("first batch");
    let hints: Vec<_> = events
        .iter()
        .filter_map(|e| match e {
            DialogueEvent::LineHints(ids) => Some(ids),
            _ => None,
        })
        .collect();
    assert_eq!(hints.len(), 1);
    assert_eq!(hints[0].len(), 2);
}

#[test]
fn library_functions_compute_stored_values() {
    let lib = Library::new()
        .with_function("ConcatString", Callable::ConcatStrings)
        .with_function("AddInt", Callable::AddNumbers)
        .with_function("NegateBool", Callable::NegateBool);
    let source = "<<declare $str = \"\">>\n<<declare $int = 0>>\n<<declare $bool = false>>\n\
                  <<set $str = ConcatString(\"a\", \"b\")>>\n<<set $int = AddInt(1,2)>>\n\
                  <<set $bool = NegateBool(true)>>\nthe end\n";
    let result = Compiler::from_test_source(source)
        .extend_library(lib.clone())
        .compile();
    assert!(result.diagnostics.is_empty(), "{:?}", result.diagnostics);
    let mut dialogue = Dialogue::new();
    dialogue.library = lib;
    dialogue.replace_program(result.program.unwrap());
    dialogue.set_string_table(result.string_table);
    dialogue.set_node("Start").unwrap();
    for _ in 0..10 {
        let Some(events) = dialogue.next() else {
            break;
        };
        if events
            .iter()
            .any(|e| matches!(e, DialogueEvent::DialogueComplete))
        {
            break;
        }
    }
    assert!(dialogue.last_fault().is_none());
    assert_eq!(
        dialogue.variable_storage.get("$str"),
        Some(YarnValue::Str("ab".to_owned()))
    );
    assert_eq!(
        dialogue.variable_storage.get("$int"),
        Some(YarnValue::Number(3))
    );
    assert_eq!(
        dialogue.variable_storage.get("$bool"),
        Some(YarnValue::Bool(false))
    );
}

#[test]
fn option_conditions_control_availability() {
    let lib = Library::new().with_function("NegateBool", Callable::NegateBool);
    let source = "<<declare $locked = true>>\n-> open door <<if NegateBool($locked)>>\n-> wait\nlater\n";
    let result = Compiler::from_test_source(source)
        .extend_library(lib.clone())
        .compile();
    assert!(result.diagnostics.is_empty(), "{:?}", result.diagnostics);
    let mut dialogue = Dialogue::new();
    dialogue.library = lib;
    dialogue.replace_program(result.program.unwrap());
    dialogue.set_string_table(result.string_table);
    dialogue.set_node("Start").unwrap();
    let events = dialogue.next().expect("options batch");
    let mut checked = false;
    for event in events {
        if let DialogueEvent::Options(options) = event {
            assert_eq!(options.len(), 2);
            assert!(!options[0].is_available);
            assert!(options[1].is_available);
            checked = true;
        }
    }
    assert!(checked);
}

#[test]
fn jumps_between_nodes_run_both() {
    let source = "title: First\n---\nin first\n<<jump Second>>\n===\ntitle: Second\n---\nin second\n===\n";
    let result = Compiler::new().add_file("test", source).compile();
    assert!(result.diagnostics.is_empty(), "{:?}", result.diagnostics);
    let mut dialogue = Dialogue::new();
    dialogue.replace_program(result.program.unwrap());
    dialogue.set_string_table(result.string_table);
    dialogue.set_node("First").unwrap();
    let mut texts: Vec<String> = Vec::new();
    for _ in 0..10 {
        let Some(events) = dialogue.next() else {
            break;
        };
        let mut complete = false;
        for event in events {
            match event {
                DialogueEvent::Line(line) => texts.push(line.text),
                DialogueEvent::DialogueComplete => complete = true,
                _ => {}
            }
        }
        if complete {
            break;
        }
    }
    assert_eq!(texts, vec!["in first".to_owned(), "in second".to_owned()]);
}

#[test]
fn line_hints_carry_the_tagged_ids() {
    let mut dialogue =
        dialogue_for("one #line:test1\ntwo #line:test2\n").with_should_send_line_hints();
    dialogue.set_node("Start").unwrap();
    let events = dialogue.next().expect("first batch");
    let mut found = false;
    for event in events {
        if let DialogueEvent::LineHints(ids) = event {
            assert_eq!(ids.len(), 2);
            assert!(ids.iter().any(|i| i.0 == "line:test1"));
            assert!(ids.iter().any(|i| i.0 == "line:test2"));
            found = true;
        }
    }
    assert!(found);
}
