use query_logger::parse_query_summary;

#[test]
fn summary_is_the_first_four_words() {
    assert_eq!(
        parse_query_summary("SELECT id, name FROM users WHERE age > 18"),
        "SELECT id, name FROM"
    );
}

#[test]
fn summary_of_fewer_words_is_all_of_them() {
    assert_eq!(parse_query_summary(""), "");
    assert_eq!(parse_query_summary("   \n\t "), "");
    assert_eq!(parse_query_summary("COMMIT"), "COMMIT");
    assert_eq!(parse_query_summary("SELECT 1"), "SELECT 1");
    assert_eq!(parse_query_summary("a b c d"), "a b c d");
}

#[test]
fn summary_joins_with_single_spaces() {
    assert_eq!(parse_query_summary("  a \n\n b\t\tc \r\n d   e"), "a b c d");
    assert_eq!(parse_query_summary("a\u{a0}b\u{3000}c\u{2003}d e"), "a b c d");
}

#[test]
fn summary_keeps_the_words_as_they_are() {
    assert_eq!(
        parse_query_summary("select \"Id\",Name from Users"),
        "select \"Id\",Name from Users"
    );
    assert_eq!(parse_query_summary("\u{e9}t\u{e9} \u{4e16}\u{754c}"), "\u{e9}t\u{e9} \u{4e16}\u{754c}");
}

#[test]
fn summary_is_its_own_summary() {
    let summary = parse_query_summary("  INSERT   INTO\tusers (id,\n name) VALUES (1, 'a')");
    assert_eq!(summary, "INSERT INTO users (id,");
    assert_eq!(parse_query_summary(&summary), summary);
}
