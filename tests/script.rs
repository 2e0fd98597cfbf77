use sqlboot::script::{normalize_statement, parse_script, Step};

fn steps_of(text: &str) -> Vec<(u32, String)> {
    match parse_script(text) {
        Ok(v) => v.into_iter().map(|s: Step| (s.version, s.statement)).collect(),
        Err(e) => panic!("parse failed on {:?}", e.line),
    }
}

#[test]
fn whitespace_canonicalization() {
    assert_eq!(
        normalize_statement("CREATE TABLE t (\n  a INT,\n  b INT\n)"),
        "CREATE TABLE t (a INT, b INT)"
    );
}

#[test]
fn normalize_collapses_runs_and_ends() {
    assert_eq!(normalize_statement("  a   b  "), "a b");
    assert_eq!(normalize_statement("f(  x  )"), "f(x)");
    assert_eq!(normalize_statement("( )"), "()");
    assert_eq!(normalize_statement(""), "");
    assert_eq!(normalize_statement("a\tb"), "a\tb");
}

#[test]
fn no_marker_lines_give_no_steps() {
    assert!(steps_of("").is_empty());
    assert!(steps_of("CREATE TABLE t (a INT);\n-- comment\n").is_empty());
}

#[test]
fn steps_follow_the_text() {
    let text = "-- v 1\nCREATE TABLE a (x INT)\n\n-- v 2\nCREATE TABLE b (\n  y INT\n)\n-- v 10\nDROP TABLE a";
    let steps = steps_of(text);
    assert_eq!(
        steps,
        vec![
            (1, "CREATE TABLE a (x INT)".to_string()),
            (2, "CREATE TABLE b (\n  y INT\n)".to_string()),
            (10, "DROP TABLE a".to_string()),
        ]
    );
}

#[test]
fn text_before_the_first_marker_is_dropped() {
    assert_eq!(steps_of("junk\n-- v 3\nX\n"), vec![(3, "X".to_string())]);
}

#[test]
fn order_is_kept_even_when_not_ascending() {
    assert_eq!(
        steps_of("-- v 5\nA\n-- v 2\nB\n"),
        vec![(5, "A".to_string()), (2, "B".to_string())]
    );
}

#[test]
fn carriage_returns_end_lines() {
    assert_eq!(steps_of("-- v 1\r\nA\r\nB\r\n"), vec![(1, "A\nB".to_string())]);
}

#[test]
fn empty_step_has_empty_statement() {
    assert_eq!(steps_of("-- v 1\n-- v 2\nB"), vec![(1, String::new()), (2, "B".to_string())]);
}

#[test]
fn bad_marker_is_a_parse_error() {
    match parse_script("-- v 1\nA\n-- v two\nB\n") {
        Err(e) => assert_eq!(e.line, "-- v two"),
        Ok(_) => panic!("expected a parse error"),
    }
    assert!(parse_script("-- v \nA").is_err());
    assert!(parse_script("-- v 4294967296\nA").is_err());
    assert!(parse_script("-- v 1 \nA").is_err());
}

#[test]
fn largest_version_reads() {
    assert_eq!(steps_of("-- v 4294967295\nA"), vec![(4294967295, "A".to_string())]);
}
