use sparql_bench::canon::normalize_dbstate;

#[test]
fn normalize_empty_is_empty() {
    assert_eq!(normalize_dbstate(String::new()), "");
}

#[test]
fn normalize_trailing_whitespace_line_equals_trimmed() {
    let with_ws = normalize_dbstate("<a> <b> <c> .   \t".to_string());
    let trimmed = normalize_dbstate("<a> <b> <c> .".to_string());
    assert_eq!(with_ws, trimmed);
}

#[test]
fn normalize_sorts_lines() {
    let out = normalize_dbstate("<b> <b> <b> .\n<a> <a> <a> .\n".to_string());
    assert_eq!(out, "<a> <a> <a> .\n<b> <b> <b> .\n");
}

#[test]
fn normalize_trims_each_line() {
    let out = normalize_dbstate("  <a> <b> <c> .  \r\n\t<a> <b> <d> .\n".to_string());
    assert_eq!(out, "<a> <b> <c> .\n<a> <b> <d> .\n");
}

#[test]
fn normalize_is_idempotent() {
    let once = normalize_dbstate("  z\nb\n\na  ".to_string());
    let twice = normalize_dbstate(once.clone());
    assert_eq!(once, twice);
}

#[test]
fn normalize_is_order_insensitive() {
    let one = normalize_dbstate("x\ny\nz".to_string());
    let other = normalize_dbstate("z\nx\ny".to_string());
    assert_eq!(one, other);
}

#[test]
fn normalize_adds_final_newline() {
    assert_eq!(normalize_dbstate("a".to_string()), "a\n");
    assert_eq!(normalize_dbstate("a\n".to_string()), "a\n");
}

#[test]
fn normalize_keeps_empty_lines_between_content() {
    // An empty line canonicalizes to an empty line terminated by a newline
    // and sorts before the others.
    let out = normalize_dbstate("b\n\na\n".to_string());
    assert_eq!(out, "\na\nb\n");
}

#[test]
fn reordered_triples_compare_equal() {
    let expected = normalize_dbstate("<a> <b> <c> .\n<a> <d> <e> .\n".to_string());
    let actual = normalize_dbstate("<a> <d> <e> .\n<a> <b> <c> .\n".to_string());
    assert_eq!(expected, actual);
}
