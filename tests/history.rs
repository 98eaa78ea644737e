use debug_tui::analyzer::Position;
use debug_tui::analyzer::Range;
use debug_tui::analyzer::VariableRef;
use debug_tui::dbgp::ContextGetResponse;
use debug_tui::dbgp::Property;
use debug_tui::dbgp::PropertyType;
use debug_tui::history::annotate;
use debug_tui::history::DocumentVariables;
use debug_tui::history::History;
use debug_tui::history::HistoryEntry;
use debug_tui::history::SourceContext;
use debug_tui::history::StackFrame;

fn entry(file: &str) -> HistoryEntry {
    HistoryEntry::initial(file.to_string(), String::new())
}

#[test]
fn navigation_after_five_pushes() {
    let mut h = History::default();
    for i in 0..5 {
        h.push(entry(&format!("f{}", i)));
    }
    for _ in 0..5 {
        h.previous();
    }
    assert_eq!(0, h.offset);
    h.next();
    assert_eq!(1, h.offset);
    assert!(!h.is_current());
}

#[test]
fn push_makes_entry_current() {
    let mut h = History::default();
    h.push(entry("a"));
    h.previous();
    h.push(entry("b"));
    assert_eq!(2, h.len());
    assert!(h.is_current());
    assert_eq!("b", h.current().unwrap().stacks[0].source.filename);
}

#[test]
fn cursor_saturates_at_both_ends() {
    let mut h = History::default();
    assert!(h.is_empty());
    assert!(!h.is_current());
    h.next();
    h.previous();
    assert_eq!(0, h.offset);
    assert!(h.current().is_none());
    h.push(entry("a"));
    h.push(entry("b"));
    for _ in 0..10 {
        h.next();
    }
    assert_eq!(1, h.offset);
    h.previous();
    h.previous();
    h.previous();
    assert_eq!(0, h.offset);
}

#[test]
fn initial_entry_is_a_stub_frame() {
    let e = HistoryEntry::initial("file:///a.php".to_string(), "<?php".to_string());
    assert_eq!(1, e.stacks.len());
    assert_eq!("file:///a.php", e.stacks[0].source.filename);
    assert_eq!(0, e.stacks[0].level);
    assert!(e.stacks[0].context.is_none());
    assert_eq!("file:///a.php", e.stack(0).unwrap().source.filename);
    assert!(e.stack(1).is_none());
    let empty = SourceContext::default();
    assert_eq!("", empty.filename);
}

#[test]
fn document_variables_replace_by_file_and_line() {
    let mut vars = DocumentVariables::new();
    let ctx = SourceContext { source: String::new(), filename: "a.php".to_string(), line_no: 3 };
    vars.put(&ctx, vec![]);
    assert!(vars.get(&"a.php".to_string(), 3).unwrap().is_empty());
    assert!(vars.get(&"a.php".to_string(), 4).is_none());
    vars.put(&ctx, vec![]);
    assert_eq!(1, vars.entries.len());
}

#[test]
fn missing_frame_context_is_filled_only_on_the_current_entry() {
    let mut h = History::default();
    let mut e = entry("a");
    e.push(StackFrame {
        level: 1,
        source: SourceContext { source: String::new(), filename: "b".to_string(), line_no: 2 },
        context: None,
    });
    h.push(e);
    assert!(h.needs_context(1));
    assert!(!h.needs_context(2));
    h.fill_context(1, ContextGetResponse { properties: vec![] });
    assert!(!h.needs_context(1));
    assert!(h.current().unwrap().stacks[1].context.is_some());
    assert!(h.current().unwrap().stacks[0].context.is_none());

    h.push(entry("c"));
    h.previous();
    assert!(!h.needs_context(0));
    h.fill_context(0, ContextGetResponse { properties: vec![] });
    assert!(h.current().unwrap().stacks[0].context.is_none());
}

fn prop(name: &str, value: &str) -> Property {
    Property {
        name: name.to_string(),
        fullname: name.to_string(),
        classname: None,
        page: None,
        pagesize: None,
        property_type: PropertyType::Int,
        facet: None,
        size: None,
        children: vec![],
        key: None,
        address: None,
        encoding: None,
        value: Some(value.to_string()),
    }
}

fn var(name: &str, col: usize) -> VariableRef {
    VariableRef {
        range: Range::new(Position::new(1, col), Position::new(1, col + name.len())),
        name: name.to_string(),
        value: None,
    }
}

#[test]
fn variables_are_joined_with_properties_by_name() {
    let frame = StackFrame {
        level: 0,
        source: SourceContext { source: String::new(), filename: "a.php".to_string(), line_no: 2 },
        context: Some(ContextGetResponse { properties: vec![prop("$a", "1"), prop("$b", "2"), prop("$a", "3")] }),
    };
    let vars = vec![var("$b", 0), var("$x", 5), var("$a", 10)];
    let joined = annotate(&vars, &frame);
    assert_eq!(2, joined.len());
    assert_eq!("$b", joined[0].var_ref.name);
    assert_eq!(Some("2".to_string()), joined[0].value.value);
    assert_eq!("$a", joined[1].var_ref.name);
    assert_eq!(Some("1".to_string()), joined[1].value.value);
    assert_eq!("$a", frame.get_property("$a").unwrap().name);
    assert!(frame.get_property("$x").is_none());

    let unfetched = StackFrame { context: None, ..frame };
    assert!(annotate(&vars, &unfetched).is_empty());

    let mut doc = DocumentVariables::new();
    doc.put(&unfetched.source, joined);
    assert_eq!(2, doc.get(&"a.php".to_string(), 2).unwrap().len());
}

#[test]
fn putting_annotations_keeps_other_lines() {
    let mut vars = DocumentVariables::new();
    let a = SourceContext { source: String::new(), filename: "a.php".to_string(), line_no: 1 };
    let b = SourceContext { source: String::new(), filename: "a.php".to_string(), line_no: 2 };
    vars.put(&a, vec![]);
    vars.put(&b, vec![]);
    vars.put(&a, vec![]);
    assert_eq!(2, vars.entries.len());
    assert!(vars.get(&"a.php".to_string(), 1).is_some());
    assert!(vars.get(&"a.php".to_string(), 2).is_some());
}

#[test]
fn entry_source_by_level() {
    let e = HistoryEntry::initial("f.php".to_string(), "<?php".to_string());
    assert_eq!("f.php", e.source(0).filename);
    assert_eq!("", e.source(1).filename);
}
