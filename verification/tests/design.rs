use acemcp_index::design::{
    can_format, can_show, can_show_row, format_search_output, join_lines, lines_of_row,
    output_columns, show_value, SearchResult,
};

fn row(pairs: &[(&str, &str)]) -> Vec<(String, String)> {
    pairs.iter().map(|(k, v)| (k.to_string(), v.to_string())).collect()
}

fn result(domain: &str, rows: Vec<Vec<(String, String)>>) -> SearchResult {
    SearchResult {
        domain: domain.to_string(),
        query: "glass card".to_string(),
        file: Some("styles.csv".to_string()),
        count: rows.len(),
        results: rows,
        stack: None,
        error: None,
    }
}

#[test]
fn a_failed_search_shows_its_error() {
    let failed = SearchResult::error("style", "q", "no such table");
    assert_eq!(failed.domain, "style");
    assert_eq!(failed.query, "q");
    assert_eq!(failed.count, 0);
    assert!(failed.results.is_empty());
    assert_eq!(failed.error, Some("no such table".to_string()));
    assert!(can_format(&failed));
    assert_eq!(format_search_output(&failed), "Error: no such table");
}

#[test]
fn results_are_shown_by_the_columns_of_their_table() {
    let rows = vec![
        row(&[("Keywords", "frosted, blur"), ("Style Category", "Glassmorphism"), ("Other", "x")]),
        row(&[("Style Category", "Minimalism")]),
    ];
    let r = result("style", rows);
    assert!(can_format(&r));
    assert_eq!(
        format_search_output(&r),
        "## UI Pro Max Search Results\n\
         **Domain:** style | **Query:** glass card\n\
         **Source:** styles.csv | **Found:** 2 results\n\n\
         ### Result 1\n\
         - **Style Category:** Glassmorphism\n\
         - **Keywords:** frosted, blur\n\n\
         ### Result 2\n\
         - **Style Category:** Minimalism\n"
    );
}

#[test]
fn results_of_a_stack_have_their_own_heading() {
    let mut r = result("stack", vec![row(&[("Do", "use slots"), ("Category", "Layout")])]);
    r.stack = Some("vue".to_string());
    r.file = None;
    assert_eq!(
        format_search_output(&r),
        "## UI Pro Max Stack Guidelines\n\
         **Stack:** vue | **Query:** glass card\n\
         **Source:**  | **Found:** 1 results\n\n\
         ### Result 1\n\
         - **Category:** Layout\n\
         - **Do:** use slots\n"
    );
}

#[test]
fn rows_of_an_unknown_table_show_every_column() {
    let r = row(&[("b", "2"), ("a", "1")]);
    assert_eq!(lines_of_row(&r, "custom"), vec!["- **b:** 2", "- **a:** 1"]);
    assert!(lines_of_row(&Vec::new(), "custom").is_empty());
    assert!(lines_of_row(&r, "style").is_empty());
    assert!(output_columns("custom").is_none());
    assert_eq!(output_columns("prompt").unwrap().len(), 4);
    assert_eq!(output_columns("stack").unwrap()[8], "Docs URL");
}

#[test]
fn results_without_rows_end_with_the_source_line() {
    let r = result("color", Vec::new());
    assert_eq!(
        format_search_output(&r),
        "## UI Pro Max Search Results\n\
         **Domain:** color | **Query:** glass card\n\
         **Source:** styles.csv | **Found:** 0 results\n"
    );
}

#[test]
fn long_values_are_cut_behind_three_hundred_bytes() {
    let short = "a".repeat(300);
    assert_eq!(show_value(&short), short);
    let long = "a".repeat(301);
    assert_eq!(show_value(&long), format!("{}...", "a".repeat(300)));
    let wide = "中".repeat(100);
    assert_eq!(show_value(&wide), wide);
    let wider = "中".repeat(101);
    assert!(can_show(&wider));
    assert_eq!(show_value(&wider), format!("{}...", "中".repeat(100)));
    assert_eq!(show_value(""), "");
}

#[test]
fn a_value_that_would_be_cut_inside_a_character_cannot_be_shown() {
    let odd = format!("a{}", "中".repeat(100));
    assert!(!can_show(&odd));
    assert!(can_show(&format!("a{}", "中".repeat(99))));
    assert!(!can_show_row(&row(&[("Keywords", &odd)]), "style"));
    assert!(can_show_row(&row(&[("Unlisted", &odd)]), "style"));
    assert!(!can_show_row(&row(&[("Unlisted", &odd)]), "custom"));
    let r = result("style", vec![row(&[("Keywords", &odd)])]);
    assert!(!can_format(&r));
}

#[test]
fn lines_are_joined_with_line_ends() {
    assert_eq!(join_lines(&vec!["a".to_string(), String::new(), "b".to_string()]), "a\n\nb");
    assert_eq!(join_lines(&vec!["only".to_string()]), "only");
    assert_eq!(join_lines(&Vec::new()), "");
}
