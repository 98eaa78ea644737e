use debug_tui::client::Command;
use debug_tui::dbgp::ContextGetResponse;
use debug_tui::dbgp::Property;
use debug_tui::dbgp::PropertyType;
use debug_tui::dbgp::StackEntry;
use debug_tui::dbgp::StackGetResponse;
use debug_tui::history::DocumentVariables;
use debug_tui::history::History;
use debug_tui::snapshot::build_snapshot;
use debug_tui::snapshot::snapshot_fetches;
use debug_tui::snapshot::AnalysisCache;
use debug_tui::workspace::Workspace;

fn stack(frames: &[(&str, u32)]) -> StackGetResponse {
    StackGetResponse {
        entries: frames
            .iter()
            .map(|(f, l)| StackEntry { filename: f.to_string(), line: *l })
            .collect(),
    }
}

fn describe(c: &Command) -> String {
    match c {
        Command::ContextGet(d) => format!("context {}", d),
        Command::Source(f) => format!("source {}", f),
        Command::Eval(e, d) => format!("eval {} {}", e, d),
        other => format!("{:?}", other),
    }
}

#[test]
fn fetch_plan_prefetches_and_skips_cached_files() {
    let s = stack(&[("a.php", 3), ("b.php", 9), ("a.php", 20), ("c.php", 1)]);
    let mut ws = Workspace::new();
    ws.store("c.php".to_string(), "<?php".to_string());
    let plan = snapshot_fetches(&s, 2, &ws, &Some(("$x".to_string(), 1)));
    let plan: Vec<String> = plan.iter().map(describe).collect();
    assert_eq!(
        vec!["context 0", "source a.php", "context 1", "source b.php", "eval $x 1"],
        plan
    );
    let none = snapshot_fetches(&s, 0, &ws, &None);
    assert_eq!(2, none.len());
}

fn prop(name: &str, value: &str) -> Property {
    Property {
        name: name.to_string(),
        fullname: name.to_string(),
        classname: None,
        page: None,
        pagesize: None,
        property_type: PropertyType::Int,
        facet: None,
        size: None,
        children: vec![],
        key: None,
        address: None,
        encoding: None,
        value: Some(value.to_string()),
    }
}

#[test]
fn snapshot_builds_frames_and_annotates_the_innermost_line() {
    let s = stack(&[("a.php", 2), ("b.php", 5)]);
    let texts = vec!["<?php\n$a = $b;\n".to_string(), "<?php\nfoo();\n".to_string()];
    let contexts = vec![Some(ContextGetResponse { properties: vec![prop("$a", "1"), prop("$b", "2")] }), None];
    let mut analyses = AnalysisCache::new();
    let mut variables = DocumentVariables::new();
    let entry = build_snapshot(&s, texts, contexts, &mut analyses, &mut variables, None);
    assert_eq!(2, entry.stacks.len());
    assert_eq!(1, entry.stacks[1].level);
    assert_eq!("b.php", entry.stacks[1].source.filename);
    assert_eq!(5, entry.stacks[1].source.line_no);
    assert!(entry.stacks[1].context.is_none());
    assert!(entry.stacks[0].context.is_some());
    assert_eq!(2, analyses.entries.len());
    let annotations = variables.get(&"a.php".to_string(), 2).unwrap();
    let mut names: Vec<(String, Option<String>)> = annotations
        .iter()
        .map(|v| (v.var_ref.name.clone(), v.value.value.clone()))
        .collect();
    names.sort();
    assert_eq!(
        vec![("$a".to_string(), Some("1".to_string())), ("$b".to_string(), Some("2".to_string()))],
        names
    );

    let again = build_snapshot(&s, vec![String::new(), String::new()], vec![None, None], &mut analyses, &mut variables, None);
    assert_eq!(2, analyses.entries.len());
    assert_eq!("", again.stacks[0].source.source);
}

#[test]
fn n_snapshots_grow_history_by_n() {
    let mut history = History::default();
    let mut analyses = AnalysisCache::new();
    let mut variables = DocumentVariables::new();
    let s = stack(&[("a.php", 1)]);
    for _ in 0..3 {
        let entry = build_snapshot(&s, vec!["<?php".to_string()], vec![None], &mut analyses, &mut variables, None);
        history.push(entry);
    }
    assert_eq!(3, history.len());
    assert!(history.is_current());
}
