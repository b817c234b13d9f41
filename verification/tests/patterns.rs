use query_logger::{parse_query_summary, trim_query};
use regex::RegexBuilder;

/// The common indentation found and taken by two multi-line patterns.
fn dedent_by_patterns(sql: &str) -> String {
    let trimmed = sql.trim();
    let indented = RegexBuilder::new(r"^( +)\S")
        .multi_line(true)
        .build()
        .unwrap();
    let mut least: Option<usize> = None;
    for found in indented.captures_iter(trimmed) {
        let indent = found.get(1).unwrap().as_str().len();
        least = Some(least.map_or(indent, |so_far| usize::min(so_far, indent)));
    }
    match least {
        Some(indent) => {
            let leading = RegexBuilder::new(&format!(r"^[ ]{{1,{}}}", indent))
                .multi_line(true)
                .build()
                .unwrap();
            leading.replace_all(trimmed, "").to_string()
        }
        None => trimmed.to_string(),
    }
}

fn summary_by_split(sql: &str) -> String {
    sql.split_whitespace().take(4).collect::<Vec<&str>>().join(" ")
}

fn samples() -> Vec<String> {
    let mut texts: Vec<String> = vec![
        "",
        " ",
        "\n",
        "\n\n",
        "a",
        " a",
        "a ",
        "a\n b",
        "a\n  b\n c",
        "a\n  b\n   c\n  d",
        "\n    SELECT 1;\n",
        "\n        SELECT id\n    FROM users\n          WHERE x\n        ORDER BY y\n    ",
        "a\n\tb",
        "a\n \tb",
        "a\n \tb\n  c",
        "a\n  \n    b",
        "a\n      \n    b",
        "a\n\n\n  b\n\n",
        "a\r\n  b\r\n    c\r\n",
        "a\n  \r\n  b",
        "a\n  \u{a0}b\n    c",
        "a\n  \u{3000}\n    c",
        "\u{2003}a\n  b\u{3000}",
        "\u{feff}a\n  b",
        "a\n  \u{e9}t\u{e9}\n    \u{4e16}\u{754c}",
        "a\n  b \n  c  d   e    f",
        "SELECT id, name FROM users WHERE age > 18",
        "  SELECT\tid,\nname \u{a0} FROM\r\nusers  ",
        "one two three four",
        "one two three four five",
        "one  two  three  four",
        " x\n  y",
        "x\n y\nz",
        "x\n y\n\n z",
    ]
    .into_iter()
    .map(String::from)
    .collect();
    // Every text of up to five characters over a small alphabet.
    let alphabet = ['a', ' ', '\n', '\t'];
    let mut level: Vec<String> = vec![String::new()];
    for _ in 0..5 {
        let mut next = Vec::new();
        for text in &level {
            for c in alphabet {
                let mut longer = text.clone();
                longer.push(c);
                next.push(longer);
            }
        }
        texts.extend(next.iter().cloned());
        level = next;
    }
    texts
}

#[test]
fn dedent_agrees_with_the_patterns() {
    for text in samples() {
        assert_eq!(trim_query(&text), dedent_by_patterns(&text), "{:?}", text);
    }
}

#[test]
fn dedent_agrees_with_the_patterns_on_longer_lines() {
    let alphabet = ["a", " ", "\n", "\n ", "\n   ", "\t", "\r\n"];
    let mut level: Vec<String> = vec![String::new()];
    for _ in 0..4 {
        let mut next = Vec::new();
        for text in &level {
            for piece in alphabet {
                let mut longer = text.clone();
                longer.push_str(piece);
                next.push(longer);
            }
        }
        level = next;
    }
    for text in level {
        assert_eq!(trim_query(&text), dedent_by_patterns(&text), "{:?}", text);
    }
}

#[test]
fn summary_agrees_with_splitting_on_whitespace() {
    for text in samples() {
        assert_eq!(parse_query_summary(&text), summary_by_split(&text), "{:?}", text);
    }
}
