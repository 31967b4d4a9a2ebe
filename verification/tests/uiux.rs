use acemcp_index::uiux::{
    add_keywords, add_keywords_allow_short, build_keyword_set, cap_max_results,
    collect_query_expansion, detect_domain, expand_query_for_bm25, extract_ascii_words,
    is_allowed_short_token, split_whitespace, stem_en_token, strip_punctuation, suggest,
    tokenize, tokenize_for_suggest,
};

fn keyword_set() -> Vec<String> {
    build_keyword_set(&Vec::new())
}

#[test]
fn tokenize_for_suggest_keeps_uiux_and_mixed_tokens() {
    let t1 = tokenize_for_suggest("UI/UX");
    assert!(t1.contains(&"ui".to_string()));
    assert!(t1.contains(&"ux".to_string()));

    let t2 = tokenize_for_suggest("UI美化");
    assert!(t2.contains(&"ui".to_string()));
}

#[test]
fn query_expansion_maps_zh_to_en_tokens() {
    let extra = collect_query_expansion("科技感 登录");
    assert!(extra.iter().any(|t| t == "futuristic"));
    assert!(extra.iter().any(|t| t == "login"));
}

#[test]
fn query_expansion_maps_ui_signal_to_long_tokens() {
    let extra = collect_query_expansion("UI美化");
    assert!(extra.iter().any(|t| t == "design"));
    assert!(extra.iter().any(|t| t == "interface"));
}

#[test]
fn detect_domain_uses_zh_hints_first() {
    assert_eq!(detect_domain("配色方案"), "color");
    assert_eq!(detect_domain("字体 排版"), "typography");
    assert_eq!(detect_domain("图标 选择"), "icons");
}

#[test]
fn suggest_triggers_on_common_zh_intent() {
    let r = suggest("优雅的登录页面，帮我美化一下", &keyword_set());
    assert!(r.should_suggest);
    assert!(r.matched_keywords.iter().any(|k| k == "登录" || k == "美化"));
}

#[test]
fn suggest_reports_sorted_distinct_keywords() {
    let r = suggest("dashboard design for a dashboard", &keyword_set());
    assert!(r.should_suggest);
    assert_eq!(r.matched_keywords, vec!["dashboard".to_string(), "design".to_string()]);
    assert_eq!(r.score, 2);
}

#[test]
fn suggest_is_silent_on_unrelated_text() {
    let r = suggest("fix the parser bug", &keyword_set());
    assert!(!r.should_suggest);
    assert_eq!(r.score, 0);
    assert!(r.matched_keywords.is_empty());
}

#[test]
fn strip_punctuation_puts_spaces() {
    assert_eq!(strip_punctuation("ui/ux, now!"), "ui ux  now ");
    assert_eq!(strip_punctuation("snake_case 美化"), "snake_case 美化");
}

#[test]
fn split_whitespace_gives_words() {
    assert_eq!(split_whitespace("  a  bc\td\n"), vec!["a", "bc", "d"]);
    assert!(split_whitespace("   ").is_empty());
    assert!(split_whitespace("").is_empty());
    assert_eq!(split_whitespace("one"), vec!["one"]);
}

#[test]
fn extract_ascii_words_lowers_and_splits() {
    assert_eq!(extract_ascii_words("UI美化Fast2x"), vec!["ui", "fast2x"]);
    assert!(extract_ascii_words("美化").is_empty());
}

#[test]
fn short_tokens_that_count() {
    assert!(is_allowed_short_token("ui"));
    assert!(is_allowed_short_token("ux"));
    assert!(is_allowed_short_token("ai"));
    assert!(!is_allowed_short_token("ok"));
    assert!(!is_allowed_short_token("UI"));
}

#[test]
fn ranking_tokens_drop_short_words() {
    assert_eq!(tokenize("A UI for the Dashboard!"), vec!["for", "the", "dashboard"]);
}

#[test]
fn stems_of_english_tokens() {
    assert_eq!(stem_en_token("darkness"), Some("dark".to_string()));
    assert_eq!(stem_en_token("loading"), Some("load".to_string()));
    assert_eq!(stem_en_token("buttons"), Some("button".to_string()));
    assert_eq!(stem_en_token("classes"), Some("class".to_string()));
    assert_eq!(stem_en_token("glass"), None);
    assert_eq!(stem_en_token("compass"), None);
    assert_eq!(stem_en_token("ring"), None);
    assert_eq!(stem_en_token("登录页面设计"), None);
}

#[test]
fn expansion_is_sorted_and_distinct() {
    let extra = collect_query_expansion("ui ux login 登录");
    let mut sorted = extra.clone();
    sorted.sort();
    sorted.dedup();
    assert_eq!(extra, sorted);
    assert!(extra.contains(&"accessibility".to_string()));
    assert!(extra.contains(&"signin".to_string()));
    assert!(extra.len() <= 32);
}

#[test]
fn expanded_query_keeps_the_question_in_front() {
    assert_eq!(expand_query_for_bm25("ux"), "ux accessibility usability");
    assert_eq!(expand_query_for_bm25("zzz"), "zzz");
}

#[test]
fn detect_domain_counts_keywords() {
    assert_eq!(detect_domain("pie chart with trend"), "chart");
    assert_eq!(detect_domain("nothing to see"), "style");
    assert_eq!(detect_domain("Dark Mode"), "style");
}

#[test]
fn cap_max_results_stays_in_range() {
    assert_eq!(cap_max_results(Some(5), 10, 3), 5);
    assert_eq!(cap_max_results(Some(50), 10, 3), 10);
    assert_eq!(cap_max_results(None, 10, 3), 3);
    assert_eq!(cap_max_results(Some(0), 10, 3), 1);
    assert_eq!(cap_max_results(Some(4), 0, 3), 1);
}

#[test]
fn keywords_skip_stopwords_and_repeats() {
    let mut set: Vec<String> = Vec::new();
    add_keywords("The best Glass UI and glass", &mut set);
    assert_eq!(set, vec!["glass".to_string()]);
    add_keywords_allow_short("nuxt-ui", &mut set);
    assert_eq!(set, vec!["glass".to_string(), "nuxt".to_string(), "ui".to_string()]);
    add_keywords_allow_short("or a", &mut set);
    assert_eq!(set.len(), 3);
}

#[test]
fn keyword_set_holds_names_and_column_words() {
    let set = build_keyword_set(&vec!["Glassmorphism".to_string(), "frosted glass blur".to_string()]);
    for k in ["glassmorphism", "frosted", "glass", "blur", "ui", "ux", "uiux", "nuxt", "tailwind",
        "react", "native", "jetpack", "compose", "style", "typography", "front", "end", "frontend",
        "dashboard", "component"]
    {
        assert!(set.contains(&k.to_string()), "{}", k);
    }
    assert!(!set.contains(&"the".to_string()));
    let mut distinct = set.clone();
    distinct.sort();
    distinct.dedup();
    assert_eq!(distinct.len(), set.len());
}
