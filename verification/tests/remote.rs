use acemcp_index::config::{AcemcpConfig, IndexError};
use acemcp_index::coordinator::BatchOutcome;
use acemcp_index::remote::{
    after_failure, backoff_delay_ms, batch_outcome, bearer, is_retryable_error, proxy_settings,
    search_text, search_url, upload_url, RetryDecision, SearchResponse, UploadResponse,
    MAX_ATTEMPTS, SEARCH_BASE_DELAY_MS, UPLOAD_BASE_DELAY_MS,
};

fn config() -> AcemcpConfig {
    AcemcpConfig {
        base_url: None,
        token: None,
        batch_size: None,
        max_lines_per_blob: None,
        text_extensions: None,
        exclude_patterns: None,
        smart_wait_range: None,
        proxy_enabled: Some(true),
        proxy_host: None,
        proxy_port: None,
        proxy_type: None,
        proxy_username: None,
        proxy_password: None,
    }
}

#[test]
fn transient_errors_are_told_by_their_text() {
    assert!(is_retryable_error("operation timeout"));
    assert!(is_retryable_error("connection reset by peer"));
    assert!(is_retryable_error("network unreachable"));
    assert!(is_retryable_error("temporary failure in name resolution"));
    assert!(!is_retryable_error("HTTP 401 Unauthorized"));
    assert!(!is_retryable_error("Timeout"));
    assert!(!is_retryable_error(""));
}

#[test]
fn backoff_doubles_with_each_attempt() {
    assert_eq!(backoff_delay_ms(1000, 1), 1000);
    assert_eq!(backoff_delay_ms(1000, 2), 2000);
    assert_eq!(backoff_delay_ms(1000, 3), 4000);
    assert_eq!(backoff_delay_ms(2000, 4), 16000);
    assert_eq!(backoff_delay_ms(0, 5), 0);
    assert_eq!(backoff_delay_ms(u64::MAX, 2), u64::MAX);
    assert_eq!(backoff_delay_ms(1, 64), 1u64 << 63);
    assert_eq!(backoff_delay_ms(1, 65), u64::MAX);
    assert_eq!(backoff_delay_ms(3, 200), u64::MAX);
}

#[test]
fn retry_stops_at_the_ceiling_and_on_lasting_errors() {
    assert_eq!(
        after_failure(1, MAX_ATTEMPTS, UPLOAD_BASE_DELAY_MS, "timeout"),
        RetryDecision::RetryAfter(1000)
    );
    assert_eq!(
        after_failure(2, MAX_ATTEMPTS, UPLOAD_BASE_DELAY_MS, "timeout"),
        RetryDecision::RetryAfter(2000)
    );
    assert_eq!(
        after_failure(3, MAX_ATTEMPTS, UPLOAD_BASE_DELAY_MS, "timeout"),
        RetryDecision::GiveUp
    );
    assert_eq!(
        after_failure(1, MAX_ATTEMPTS, SEARCH_BASE_DELAY_MS, "network down"),
        RetryDecision::RetryAfter(2000)
    );
    assert_eq!(
        after_failure(1, MAX_ATTEMPTS, UPLOAD_BASE_DELAY_MS, "HTTP 400 bad request"),
        RetryDecision::GiveUp
    );
    assert_eq!(after_failure(1, 1, 1000, "timeout"), RetryDecision::GiveUp);
    assert_eq!(after_failure(1, 0, 1000, "timeout"), RetryDecision::GiveUp);
}

#[test]
fn endpoints_hang_on_the_base_url() {
    assert_eq!(upload_url("https://h"), "https://h/batch-upload");
    assert_eq!(search_url("https://h"), "https://h/agents/codebase-retrieval");
    assert_eq!(bearer("abc"), "Bearer abc");
}

#[test]
fn upload_answer_with_names_went_through() {
    let answer = UploadResponse {
        blob_names: Some(vec![Some("n1".to_string()), None, Some("n2".to_string())]),
    };
    match batch_outcome(Ok(answer)) {
        BatchOutcome::Uploaded(names) => assert_eq!(names, vec!["n1", "n2"]),
        BatchOutcome::Failed(_) => panic!("the batch went through"),
    }
}

#[test]
fn upload_answer_without_names_failed() {
    let empty = UploadResponse { blob_names: Some(Vec::new()) };
    assert!(matches!(batch_outcome(Ok(empty)), BatchOutcome::Failed(_)));
    let no_strings = UploadResponse { blob_names: Some(vec![None, None]) };
    assert!(matches!(batch_outcome(Ok(no_strings)), BatchOutcome::Failed(_)));
    let missing = UploadResponse { blob_names: None };
    assert!(matches!(batch_outcome(Ok(missing)), BatchOutcome::Failed(_)));
    match batch_outcome(Err("HTTP 500 oops".to_string())) {
        BatchOutcome::Failed(reason) => assert_eq!(reason, "HTTP 500 oops"),
        BatchOutcome::Uploaded(_) => panic!("the batch failed"),
    }
}

#[test]
fn search_answer_passes_through_or_says_nothing_found() {
    let found = SearchResponse { formatted_retrieval: Some("src/a.rs:1 fn a()".to_string()) };
    assert_eq!(search_text(&found), "src/a.rs:1 fn a()");
    let sentinel = SearchResponse {
        formatted_retrieval: Some("No relevant code context found for your query.".to_string()),
    };
    assert_eq!(search_text(&sentinel), "No relevant code context found for your query.");
    let empty = SearchResponse { formatted_retrieval: Some(String::new()) };
    assert_eq!(search_text(&empty), "No relevant code context found for your query.");
    let absent = SearchResponse { formatted_retrieval: None };
    assert_eq!(search_text(&absent), "No relevant code context found for your query.");
}

#[test]
fn proxy_defaults_to_local_http() {
    let p = proxy_settings(&config()).ok().unwrap().unwrap();
    assert_eq!(p.url, "http://127.0.0.1:7890");
    assert_eq!(p.username, None);
    assert_eq!(p.password, "");
}

#[test]
fn proxy_takes_host_port_type_and_user() {
    let mut c = config();
    c.proxy_host = Some("proxy.local".to_string());
    c.proxy_port = Some(1080);
    c.proxy_type = Some("socks5".to_string());
    c.proxy_username = Some("  me ".to_string());
    c.proxy_password = Some("secret".to_string());
    let p = proxy_settings(&c).ok().unwrap().unwrap();
    assert_eq!(p.url, "socks5://proxy.local:1080");
    assert_eq!(p.username, Some("me".to_string()));
    assert_eq!(p.password, "secret");

    c.proxy_username = Some("   ".to_string());
    let p = proxy_settings(&c).ok().unwrap().unwrap();
    assert_eq!(p.username, None);
}

#[test]
fn proxy_is_off_unless_enabled() {
    let mut c = config();
    c.proxy_enabled = Some(false);
    c.proxy_type = Some("gopher".to_string());
    assert!(proxy_settings(&c).ok().unwrap().is_none());
    c.proxy_enabled = None;
    assert!(proxy_settings(&c).ok().unwrap().is_none());
}

#[test]
fn proxy_of_an_unknown_type_is_refused() {
    let mut c = config();
    c.proxy_type = Some("gopher".to_string());
    assert_eq!(proxy_settings(&c).err(), Some(IndexError::UnsupportedProxyType));
    c.proxy_type = Some("HTTP".to_string());
    assert_eq!(proxy_settings(&c).err(), Some(IndexError::UnsupportedProxyType));
    c.proxy_type = Some("https".to_string());
    assert_eq!(proxy_settings(&c).ok().unwrap().unwrap().url, "https://127.0.0.1:7890");
}
