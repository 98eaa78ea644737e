use debug_tui::analyzer::Analyser;
use debug_tui::analyzer::Position;
use debug_tui::analyzer::Range;
use debug_tui::analyzer::VariableRef;

#[test]
fn test_analyse_vars() {
    let source = r#"<?php
$var1 = 'hello'; $var2 = 'bar';
        "#;
    let analysis = Analyser::new().analyze(source);
    let line = analysis.row(1);
    assert_eq!(2, line.values().len());

    assert_eq!(
        &VariableRef {
            range: Range::new(Position::new(1, 0), Position::new(1, 5)),
            name: "$var1".to_string(),
            value: None,
        },
        line.get(&0).unwrap()
    );

    assert_eq!(
        &VariableRef {
            range: Range::new(Position::new(1, 17), Position::new(1, 22)),
            name: "$var2".to_string(),
            value: None,
        },
        line.get(&17).unwrap()
    );
}

#[test]
fn test_analyse_list() {
    let source = r#"<?php
list($var1, $var2) = some_call();
        "#;
    let analysis = Analyser::new().analyze(source);
    let line = analysis.row(1);
    assert_eq!(2, line.values().len());

    assert_eq!(
        &VariableRef {
            range: Range::new(Position::new(1, 5), Position::new(1, 10)),
            name: "$var1".to_string(),
            value: None,
        },
        line.get(&5).unwrap()
    );
}

#[test]
fn analysis_is_idempotent() {
    let source = "<?php\n$a = $b;\n$c = 1;\n";
    let first = Analyser::new().analyze(source);
    let second = Analyser::new().analyze(source);
    for row in 0..4 {
        assert_eq!(first.row(row), second.row(row));
    }
    assert_eq!(2, first.row(1).len());
    assert_eq!(1, first.row(2).len());
    assert!(first.row(3).is_empty());
}
