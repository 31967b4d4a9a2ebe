use acemcp_index::acemcp::{
    connection_precheck, default_text_extensions, get_acemcp_config, health_url,
    save_acemcp_config, AcemcpTool, SaveAcemcpConfigArgs,
};
use acemcp_index::config::{check_config, is_valid_endpoint, AcemcpConfig, IndexError};
use acemcp_index::settings::{
    default_always_on_top, default_audio_config, default_audio_notification_enabled,
    default_audio_url, default_auto_continue_threshold, default_auto_resize,
    default_continue_prompt, default_custom_font_family, default_custom_prompt_config,
    default_custom_prompt_enabled, default_custom_prompt_max_prompts, default_custom_prompts,
    default_enable_continue_reply, default_font_config, default_font_family, default_font_size,
    default_mcp_config, default_mcp_tools, default_prompt_state, default_prompt_type,
    default_proxy_auto_detect, default_proxy_config, default_proxy_enabled, default_proxy_host,
    default_proxy_only_for_cn, default_proxy_port, default_proxy_type, default_reply_config,
    default_shortcut_config, default_shortcuts, default_telegram_api_base_url,
    default_telegram_bot_token, default_telegram_chat_id, default_telegram_config,
    default_telegram_enabled, default_telegram_hide_frontend_popup, default_theme,
    default_window_fixed,
};
use acemcp_index::status::{IndexStatus, ProjectIndexStatus, ProjectsIndexStatus};

fn empty_config() -> AcemcpConfig {
    AcemcpConfig {
        base_url: None,
        token: None,
        batch_size: None,
        max_lines_per_blob: None,
        text_extensions: None,
        exclude_patterns: None,
        smart_wait_range: None,
        proxy_enabled: None,
        proxy_host: None,
        proxy_port: None,
        proxy_type: None,
        proxy_username: None,
        proxy_password: None,
    }
}

#[test]
fn simple_defaults() {
    assert!(default_always_on_top());
    assert!(!default_audio_notification_enabled());
    assert!(default_auto_resize());
    assert!(default_enable_continue_reply());
    assert!(!default_window_fixed());
    assert!(!default_telegram_enabled());
    assert!(!default_telegram_hide_frontend_popup());
    assert!(!default_prompt_state());
    assert!(default_custom_prompt_enabled());
    assert!(default_proxy_auto_detect());
    assert!(!default_proxy_enabled());
    assert!(default_proxy_only_for_cn());
    assert_eq!(default_theme(), "dark");
    assert_eq!(default_audio_url(), "");
    assert_eq!(default_continue_prompt(), "请按照最佳实践继续");
    assert_eq!(default_telegram_bot_token(), "");
    assert_eq!(default_telegram_chat_id(), "");
    assert_eq!(default_telegram_api_base_url(), "https://api.telegram.org/bot");
    assert_eq!(default_font_family(), "inter");
    assert_eq!(default_font_size(), "medium");
    assert!(default_custom_font_family().starts_with("Inter, "));
    assert_eq!(default_prompt_type(), "normal");
    assert_eq!(default_proxy_type(), "http");
    assert_eq!(default_proxy_host(), "127.0.0.1");
    assert_eq!(default_auto_continue_threshold(), 1000);
    assert_eq!(default_custom_prompt_max_prompts(), 50);
    assert_eq!(default_proxy_port(), 7890);
}

#[test]
fn grouped_defaults_hold_the_simple_ones() {
    let audio = default_audio_config();
    assert!(!audio.notification_enabled);
    assert_eq!(audio.custom_url, "");
    let reply = default_reply_config();
    assert!(reply.enable_continue_reply);
    assert_eq!(reply.auto_continue_threshold, 1000);
    assert_eq!(reply.continue_prompt, "请按照最佳实践继续");
    let font = default_font_config();
    assert_eq!(font.font_family, "inter");
    assert_eq!(font.font_size, "medium");
    let telegram = default_telegram_config();
    assert!(!telegram.enabled);
    assert_eq!(telegram.api_base_url, "https://api.telegram.org/bot");
    let proxy = default_proxy_config();
    assert!(proxy.auto_detect);
    assert!(!proxy.enabled);
    assert_eq!(proxy.proxy_type, "http");
    assert_eq!(proxy.host, "127.0.0.1");
    assert_eq!(proxy.port, 7890);
    assert!(proxy.only_for_cn);
}

#[test]
fn tools_that_need_a_service_are_off() {
    let tools = default_mcp_tools();
    let expected = vec![
        ("zhi".to_string(), true),
        ("ji".to_string(), true),
        ("sou".to_string(), false),
        ("context7".to_string(), true),
        ("uiux".to_string(), true),
        ("enhance".to_string(), false),
    ];
    assert_eq!(tools, expected);
    let mcp = default_mcp_config();
    assert_eq!(mcp.tools, expected);
    assert_eq!(mcp.acemcp_base_url, None);
    assert_eq!(mcp.acemcp_watch_debounce_ms, None);
    assert_eq!(mcp.uiux_default_lang, Some("zh".to_string()));
    assert_eq!(mcp.uiux_output_format, Some("json".to_string()));
    assert_eq!(mcp.uiux_max_results_cap, Some(10));
    assert_eq!(mcp.uiux_beautify_enabled, Some(true));
    assert_eq!(mcp.icon_cache_expiry_minutes, None);
}

#[test]
fn shortcuts_are_on_enter() {
    let shortcuts = default_shortcuts();
    assert_eq!(shortcuts.len(), 3);
    let (name, submit) = &shortcuts[0];
    assert_eq!(name, "quick_submit");
    assert_eq!(submit.id, "quick_submit");
    assert_eq!(submit.name, "快速发送");
    assert_eq!(submit.action, "submit");
    assert_eq!(submit.key_combination.key, "Enter");
    assert!(submit.key_combination.ctrl);
    assert!(!submit.key_combination.shift);
    assert!(!submit.key_combination.alt);
    assert!(!submit.key_combination.meta);
    assert!(submit.enabled);
    assert_eq!(submit.scope, "popup");
    let (name, enhance) = &shortcuts[1];
    assert_eq!(name, "enhance");
    assert_eq!(enhance.action, "enhance");
    assert!(enhance.key_combination.ctrl && enhance.key_combination.shift);
    let (name, go_on) = &shortcuts[2];
    assert_eq!(name, "continue");
    assert_eq!(go_on.action, "continue");
    assert!(go_on.key_combination.alt && !go_on.key_combination.ctrl);
    assert_eq!(default_shortcut_config().shortcuts.len(), 3);
}

#[test]
fn built_in_prompts_are_twelve() {
    let prompts = default_custom_prompts("2024-01-01T00:00:00+00:00");
    assert_eq!(prompts.len(), 12);
    for (i, p) in prompts.iter().enumerate() {
        assert_eq!(p.id, format!("default_{}", i + 1));
        assert_eq!(p.sort_order, i as i32 + 1);
        assert_eq!(p.created_at, "2024-01-01T00:00:00+00:00");
        assert_eq!(p.updated_at, "2024-01-01T00:00:00+00:00");
        assert_eq!(p.prompt_type, if i < 6 { "normal" } else { "conditional" });
    }
    assert_eq!(prompts[0].name, "✅Done");
    assert_eq!(prompts[0].content, "结束当前对话");
    assert_eq!(prompts[1].content, "");
    assert_eq!(prompts[6].condition_text, Some("是否生成总结性Markdown文档".to_string()));
    assert_eq!(prompts[6].template_true, Some("✔️请记住，帮我生成总结性Markdown文档".to_string()));
    assert_eq!(prompts[10].linked_mcp_tool, Some("sou".to_string()));
    assert!(!prompts[10].current_state);
    assert_eq!(prompts[10].template_false, Some(String::new()));
    assert_eq!(prompts[11].linked_mcp_tool, Some("context7".to_string()));
    assert!(prompts[11].current_state);
    let config = default_custom_prompt_config("t");
    assert_eq!(config.prompts.len(), 12);
    assert!(config.enabled);
    assert_eq!(config.max_prompts, 50);
}

#[test]
fn endpoint_needs_a_scheme_and_a_host() {
    assert!(is_valid_endpoint("https://a"));
    assert!(is_valid_endpoint("http://ab"));
    assert!(!is_valid_endpoint("http://a"));
    assert!(!is_valid_endpoint("https://"));
    assert!(!is_valid_endpoint("example.com/some/path"));
    assert!(!is_valid_endpoint(" https://example.com"));
    assert!(!is_valid_endpoint(""));
}

#[test]
fn configuration_errors_come_in_order() {
    let mut c = empty_config();
    assert_eq!(check_config(&c).err(), Some(IndexError::MissingBaseUrl));
    c.base_url = Some("example.com".to_string());
    assert_eq!(check_config(&c).err(), Some(IndexError::InvalidBaseUrl));
    c.base_url = Some("https://example.com".to_string());
    assert_eq!(check_config(&c).err(), Some(IndexError::MissingToken));
    c.token = Some("t".to_string());
    let s = check_config(&c).ok().unwrap();
    assert_eq!(s.batch_size, 10);
    assert_eq!(s.max_lines, 800);
    assert!(s.text_extensions.is_empty());
    assert!(s.exclude_patterns.is_empty());
    c.batch_size = Some(3);
    c.max_lines_per_blob = Some(50);
    c.text_extensions = Some(vec![".rs".to_string()]);
    c.exclude_patterns = Some(vec!["target".to_string()]);
    let s = check_config(&c).ok().unwrap();
    assert_eq!(s.batch_size, 3);
    assert_eq!(s.max_lines, 50);
    assert_eq!(s.text_extensions, vec![".rs"]);
    assert_eq!(s.exclude_patterns, vec!["target"]);
}

#[test]
fn every_error_has_its_words() {
    assert_eq!(IndexError::MissingBaseUrl.message(), "未配置 base_url");
    assert_eq!(
        IndexError::InvalidBaseUrl.message(),
        "无效的 base_url，请填写完整的 http(s)://host[:port] 格式"
    );
    assert_eq!(IndexError::MissingToken.message(), "未配置 token");
    assert_eq!(IndexError::RootNotFound.message(), "项目根目录不存在");
    assert_eq!(IndexError::NoIndexableFiles.message(), "未在项目中找到可索引的文本文件");
    assert_eq!(IndexError::NoBlobsAfterIndexing.message(), "索引后未找到 blobs");
    assert_eq!(
        IndexError::UnsupportedProxyType.message(),
        "不支持的代理类型（仅支持 http/https/socks5）"
    );
}

#[test]
fn settings_are_saved_with_a_normalized_endpoint() {
    let mut mcp = default_mcp_config();
    mcp.acemcp_proxy_port = Some(1);
    let args = SaveAcemcpConfigArgs {
        base_url: " example.com/api/ ".to_string(),
        token: "tok".to_string(),
        batch_size: 7,
        max_lines_per_blob: 300,
        text_extensions: vec![".rs".to_string()],
        exclude_patterns: vec!["target".to_string()],
    };
    save_acemcp_config(args, &mut mcp);
    assert_eq!(mcp.acemcp_base_url, Some("http://example.com/api".to_string()));
    assert_eq!(mcp.acemcp_token, Some("tok".to_string()));
    assert_eq!(mcp.acemcp_batch_size, Some(7));
    assert_eq!(mcp.acemcp_max_lines_per_blob, Some(300));
    assert_eq!(mcp.acemcp_text_extensions, Some(vec![".rs".to_string()]));
    assert_eq!(mcp.acemcp_exclude_patterns, Some(vec!["target".to_string()]));
    assert_eq!(mcp.acemcp_proxy_port, Some(1));

    let config = AcemcpTool::get_acemcp_config(&mcp);
    assert_eq!(config.base_url, Some("http://example.com/api".to_string()));
    assert_eq!(config.batch_size, Some(7));
    assert_eq!(config.smart_wait_range, Some((1, 5)));
    assert_eq!(config.proxy_port, Some(1));
    assert_eq!(config.text_extensions, Some(vec![".rs".to_string()]));

    let shown = get_acemcp_config(&mcp);
    assert_eq!(shown.batch_size, 7);
    assert_eq!(shown.text_extensions, vec![".rs"]);
}

#[test]
fn settings_are_shown_with_the_usual_values() {
    let shown = get_acemcp_config(&default_mcp_config());
    assert_eq!(shown.base_url, None);
    assert_eq!(shown.token, None);
    assert_eq!(shown.batch_size, 10);
    assert_eq!(shown.max_lines_per_blob, 800);
    assert_eq!(shown.text_extensions.len(), 28);
    assert_eq!(shown.text_extensions[0], ".py");
    assert_eq!(shown.text_extensions[27], ".bash");
    assert_eq!(shown.text_extensions, default_text_extensions());
    assert_eq!(shown.exclude_patterns, vec!["node_modules", ".git", "target", "dist"]);
}

#[test]
fn endpoint_and_token_are_checked_before_a_try() {
    let bad_url = connection_precheck("example.com", "tok").unwrap();
    assert!(!bad_url.success);
    assert_eq!(bad_url.message, "无效的API端点URL格式，必须以 http:// 或 https:// 开头");
    let bad_token = connection_precheck("https://example.com", "  \t").unwrap();
    assert!(!bad_token.success);
    assert_eq!(bad_token.message, "认证令牌不能为空");
    assert!(connection_precheck("https://example.com", "").is_some());
    assert!(connection_precheck("http://example.com", "tok").is_none());
    assert_eq!(health_url("https://h/"), "https://h/health");
    assert_eq!(health_url("https://h"), "https://h/health");
    assert_eq!(health_url("https://h//"), "https://h//health");
}

#[test]
fn index_status_of_a_project_comes_from_the_table() {
    let mut all = ProjectsIndexStatus::new();
    let mut s = ProjectIndexStatus::new("/p");
    s.mark_indexing();
    all.set_project_status(s);
    assert_eq!(AcemcpTool::get_index_status(&all, &"/p".to_string()).status, IndexStatus::Indexing);
    assert_eq!(AcemcpTool::get_index_status(&all, &"/q".to_string()).status, IndexStatus::Idle);
}
