use acemcp_index::enhance::{default_include_history, EnhanceStreamEvent};
use acemcp_index::memory::MemoryCategory;
use acemcp_index::proxy::{ProxyDetector, ProxyInfo, ProxyType};
use acemcp_index::strings::{
    clone_list, list_contains, smallest_distinct, sorted_order, sorted_strings, str_eq, str_le,
};
use acemcp_index::text::{chars_of, decimal_digits, to_string, trim};

fn strings(items: &[&str]) -> Vec<String> {
    items.iter().map(|s| s.to_string()).collect()
}

#[test]
fn proxy_address_has_scheme_host_and_port() {
    assert_eq!(ProxyInfo::new(ProxyType::Http, "127.0.0.1".to_string(), 7890).to_url(), "http://127.0.0.1:7890");
    assert_eq!(ProxyInfo::new(ProxyType::Socks5, "h".to_string(), 0).to_url(), "socks5://h:0");
    assert_eq!(ProxyInfo::new(ProxyType::Http, "h".to_string(), 65535).to_url(), "http://h:65535");
    assert_eq!(ProxyType::default(), ProxyType::Http);
    assert_eq!(ProxyType::Socks5.scheme(), "socks5");
}

#[test]
fn first_port_that_answers_is_the_proxy() {
    let ports = ProxyDetector::common_ports();
    assert_eq!(
        ports,
        vec![
            (7890, ProxyType::Http),
            (7891, ProxyType::Http),
            (10808, ProxyType::Http),
            (10809, ProxyType::Socks5),
            (1080, ProxyType::Socks5),
            (8080, ProxyType::Http),
        ]
    );
    let p = ProxyDetector::first_available(&vec![false, false, false, true, true, false]).unwrap();
    assert_eq!(p.port, 10809);
    assert_eq!(p.proxy_type, ProxyType::Socks5);
    assert_eq!(p.host, "127.0.0.1");
    assert!(ProxyDetector::first_available(&vec![false; 6]).is_none());
    assert!(ProxyDetector::first_available(&Vec::new()).is_none());
    assert_eq!(ProxyDetector::first_available(&vec![true]).unwrap().port, 7890);
}

#[test]
fn memory_category_is_read_in_two_languages() {
    assert_eq!(MemoryCategory::from_str("rule"), MemoryCategory::Rule);
    assert_eq!(MemoryCategory::from_str("规范"), MemoryCategory::Rule);
    assert_eq!(MemoryCategory::from_str("规则"), MemoryCategory::Rule);
    assert_eq!(MemoryCategory::from_str("Preference"), MemoryCategory::Preference);
    assert_eq!(MemoryCategory::from_str("偏好"), MemoryCategory::Preference);
    assert_eq!(MemoryCategory::from_str("PATTERN"), MemoryCategory::Pattern);
    assert_eq!(MemoryCategory::from_str("最佳实践"), MemoryCategory::Pattern);
    assert_eq!(MemoryCategory::from_str("context"), MemoryCategory::Context);
    assert_eq!(MemoryCategory::from_str("上下文"), MemoryCategory::Context);
    assert_eq!(MemoryCategory::from_str("something else"), MemoryCategory::Rule);
    assert_eq!(MemoryCategory::from_str(""), MemoryCategory::Rule);
    assert_eq!(MemoryCategory::Rule.display_name(), "规范");
    assert_eq!(MemoryCategory::Preference.display_name(), "偏好");
    assert_eq!(MemoryCategory::Pattern.display_name(), "模式");
    assert_eq!(MemoryCategory::Context.display_name(), "背景");
}

#[test]
fn stream_events_carry_their_kind() {
    let e = EnhanceStreamEvent::chunk("b", "ab", 40);
    assert_eq!(e.event_type, "chunk");
    assert_eq!(e.chunk, Some("b".to_string()));
    assert_eq!(e.accumulated_text, Some("ab".to_string()));
    assert_eq!(e.enhanced_prompt, None);
    assert_eq!(e.error, None);
    assert_eq!(e.progress, 40);
    let e = EnhanceStreamEvent::complete("better", "all of it");
    assert_eq!(e.event_type, "complete");
    assert_eq!(e.chunk, None);
    assert_eq!(e.accumulated_text, Some("all of it".to_string()));
    assert_eq!(e.enhanced_prompt, Some("better".to_string()));
    assert_eq!(e.progress, 100);
    let e = EnhanceStreamEvent::error("no");
    assert_eq!(e.event_type, "error");
    assert_eq!(e.error, Some("no".to_string()));
    assert_eq!(e.accumulated_text, None);
    assert_eq!(e.progress, 0);
    assert!(default_include_history());
}

#[test]
fn strings_are_ordered_as_str_orders_them() {
    assert!(str_le("", ""));
    assert!(str_le("", "a"));
    assert!(!str_le("a", ""));
    assert!(str_le("a", "a"));
    assert!(str_le("a", "ab"));
    assert!(!str_le("ab", "a"));
    assert!(str_le("Z", "a"));
    assert!(str_le("a", "中"));
    assert!(str_le("中", "文"));
    assert!(str_le("\u{ffff}", "\u{10000}"));
    assert!(str_eq("中文", "中文"));
    assert!(!str_eq("a", "b"));
    assert!(!str_eq("a", "ab"));
}

#[test]
fn sorting_is_stable_and_complete() {
    let list = strings(&["pear", "apple", "fig", "apple", "", "Fig"]);
    assert_eq!(sorted_order(&list), vec![4, 5, 1, 3, 2, 0]);
    assert_eq!(sorted_strings(&list), strings(&["", "Fig", "apple", "apple", "fig", "pear"]));
    assert!(sorted_order(&Vec::new()).is_empty());
    let mut expected = list.clone();
    expected.sort();
    assert_eq!(sorted_strings(&list), expected);
}

#[test]
fn smallest_distinct_cuts_after_the_limit() {
    let list = strings(&["d", "b", "a", "b", "e", "c", "a", "f"]);
    assert_eq!(smallest_distinct(&list, 5), strings(&["a", "b", "c", "d", "e"]));
    assert_eq!(smallest_distinct(&list, 1), strings(&["a"]));
    assert_eq!(smallest_distinct(&list, 100), strings(&["a", "b", "c", "d", "e", "f"]));
    assert!(smallest_distinct(&Vec::new(), 5).is_empty());
}

#[test]
fn lists_know_their_strings() {
    let list = strings(&["a", "b"]);
    assert!(list_contains(&list, &"a".to_string()));
    assert!(!list_contains(&list, &"c".to_string()));
    assert!(!list_contains(&Vec::new(), &"a".to_string()));
    assert_eq!(clone_list(&list), list);
}

#[test]
fn text_helpers_work_on_characters() {
    assert_eq!(chars_of("a中b"), vec!['a', '中', 'b']);
    assert_eq!(to_string(&vec!['x', '文']), "x文");
    assert_eq!(to_string(&trim(&chars_of(" \t a b \n"))), "a b");
    assert_eq!(to_string(&trim(&chars_of("   "))), "");
    assert_eq!(to_string(&decimal_digits(0)), "0");
    assert_eq!(to_string(&decimal_digits(9)), "9");
    assert_eq!(to_string(&decimal_digits(10)), "10");
    assert_eq!(to_string(&decimal_digits(18446744073709551615)), "18446744073709551615");
}
