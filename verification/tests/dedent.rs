use query_logger::chars::is_whitespace;
use query_logger::trim_query;

#[test]
fn test_trim_query_already_trimmed() {
    let sql = "SELECT * FROM table WHERE column = 'value';";
    assert_eq!(
        trim_query(sql),
        "SELECT * FROM table WHERE column = 'value';"
    );
}

#[test]
fn test_trim_query_simple_dedent() {
    let sql = "
            SELECT * FROM table WHERE column = 'value';
        ";
    assert_eq!(
        trim_query(sql),
        "SELECT * FROM table WHERE column = 'value';"
    );
}

#[test]
fn test_trim_query_complex_dedent() {
    let sql = "
                SELECT id, name
                FROM users
                WHERE age > 18
                ORDER BY name;
        ";
    let expected = "SELECT id, name\nFROM users\nWHERE age > 18\nORDER BY name;";
    assert_eq!(trim_query(sql), expected);
}

#[test]
fn test_trim_query_mixed_indentation() {
    let sql = "
                SELECT id, name
            FROM users
                  WHERE age > 18
                ORDER BY name;
        ";
    let expected = "SELECT id, name\nFROM users\n      WHERE age > 18\n    ORDER BY name;";
    assert_eq!(trim_query(sql), expected);
}

#[test]
fn test_trim_query_empty_string() {
    let sql = "";
    assert_eq!(trim_query(sql), "");
}

#[test]
fn test_trim_query_spaces_only() {
    let sql = "     ";
    assert_eq!(trim_query(sql), "");
}

#[test]
fn test_trim_query_newlines_only() {
    let sql = "\n\n";
    assert_eq!(trim_query(sql), "");
}

#[test]
fn dedent_of_blank_texts_is_empty() {
    assert_eq!(trim_query(""), "");
    assert_eq!(trim_query("   "), "");
    assert_eq!(trim_query("\n\n"), "");
    assert_eq!(trim_query(" \t\r\n \u{a0}\u{3000} "), "");
}

#[test]
fn dedent_of_one_indented_line() {
    assert_eq!(trim_query("\n    SELECT 1;\n"), "SELECT 1;");
}

#[test]
fn dedent_takes_the_least_indentation_from_every_line() {
    let sql = "\n        SELECT id\n    FROM users\n          WHERE x\n        ORDER BY y\n    ";
    assert_eq!(
        trim_query(sql),
        "SELECT id\nFROM users\n      WHERE x\n    ORDER BY y"
    );
}

#[test]
fn dedent_without_indented_line_only_trims() {
    assert_eq!(trim_query("  SELECT 1\nFROM t\nWHERE x  "), "SELECT 1\nFROM t\nWHERE x");
    assert_eq!(trim_query("a\n\nb"), "a\n\nb");
    assert_eq!(trim_query("one line"), "one line");
}

#[test]
fn dedent_changes_a_text_whose_first_line_is_not_indented() {
    assert_eq!(trim_query("a\n  b"), "a\nb");
    assert_eq!(trim_query("a\n  b\n    c"), "a\nb\n  c");
}

#[test]
fn dedent_does_not_count_tabs() {
    assert_eq!(trim_query("a\n\tb"), "a\n\tb");
    assert_eq!(trim_query("a\n\t  b"), "a\n\t  b");
    // Spaces before a tab are no indentation that counts, yet they are taken
    // where another line counts.
    assert_eq!(trim_query("a\n  \tb"), "a\n  \tb");
    assert_eq!(trim_query("a\n  \tb\n   c"), "a\n\tb\nc");
}

#[test]
fn dedent_strips_blank_lines_without_counting_them() {
    assert_eq!(trim_query("a\n    b\n  \n    c"), "a\nb\n\nc");
    assert_eq!(trim_query("a\n    b\n      \n    c"), "a\nb\n  \nc");
    assert_eq!(trim_query("a\n \n    b"), "a\n\nb");
}

#[test]
fn dedent_keeps_carriage_returns() {
    assert_eq!(trim_query("a\r\n  b\r\n    c\r\n"), "a\r\nb\r\n  c");
    // A line of spaces and a carriage return does not count.
    assert_eq!(trim_query("a\n  \r\n    b"), "a\n\r\nb");
}

#[test]
fn dedent_knows_whitespace_beyond_ascii() {
    assert_eq!(trim_query("\u{2003}a\n  b\u{3000}"), "a\nb");
    // A no-break space behind the spaces is whitespace: the line does not count.
    assert_eq!(trim_query("a\n  \u{a0}b\n    c"), "a\n\u{a0}b\nc");
}

#[test]
fn whitespace_is_what_std_calls_whitespace() {
    for code in 0..=0x10ffffu32 {
        if let Some(c) = char::from_u32(code) {
            assert_eq!(is_whitespace(c), c.is_whitespace(), "U+{:04X}", code);
        }
    }
}

#[test]
fn dedent_takes_an_indentation_of_any_width() {
    let wide = " ".repeat(300_000);
    let sql = format!("a\n{wide}b\n{wide}  c");
    assert_eq!(trim_query(&sql), "a\nb\n  c");
}

#[test]
fn dedenting_again_may_take_more() {
    let sql = "\n        SELECT id\n    FROM users\n          WHERE x\n        ORDER BY y\n    ";
    let once = trim_query(sql);
    assert_eq!(trim_query(&once), "SELECT id\nFROM users\n  WHERE x\nORDER BY y");
}
