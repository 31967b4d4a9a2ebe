//! The application's settings with their default values.

use crate::text::{chars_of, decimal, decimal_digits, push_all, to_string};
use vstd::prelude::*;

verus! {

/// Fonts of the window.
pub struct FontConfig {
    /// `inter`, `jetbrains-mono`, `system` or `custom`.
    pub font_family: String,
    /// `small`, `medium` or `large`.
    pub font_size: String,
    pub custom_font_family: String,
}

/// Sounds.
pub struct AudioConfig {
    pub notification_enabled: bool,
    pub custom_url: String,
}

/// The reply that asks to go on.
pub struct ReplyConfig {
    pub enable_continue_reply: bool,
    pub auto_continue_threshold: u32,
    pub continue_prompt: String,
}

/// The tools and what each of them is configured with.
pub struct McpConfig {
    /// Each tool with its switch, no tool twice.
    pub tools: Vec<(String, bool)>,
    pub acemcp_base_url: Option<String>,
    pub acemcp_token: Option<String>,
    pub acemcp_batch_size: Option<u32>,
    pub acemcp_max_lines_per_blob: Option<u32>,
    pub acemcp_text_extensions: Option<Vec<String>>,
    pub acemcp_exclude_patterns: Option<Vec<String>>,
    /// Milliseconds of quiet before a burst of file changes is handled.
    pub acemcp_watch_debounce_ms: Option<u64>,
    pub acemcp_auto_index_enabled: Option<bool>,
    pub acemcp_index_nested_projects: Option<bool>,
    pub acemcp_proxy_enabled: Option<bool>,
    pub acemcp_proxy_host: Option<String>,
    pub acemcp_proxy_port: Option<u16>,
    pub acemcp_proxy_type: Option<String>,
    pub acemcp_proxy_username: Option<String>,
    pub acemcp_proxy_password: Option<String>,
    pub context7_api_key: Option<String>,
    pub skill_python_path: Option<String>,
    pub uiux_default_lang: Option<String>,
    pub uiux_output_format: Option<String>,
    pub uiux_max_results_cap: Option<u32>,
    pub uiux_beautify_enabled: Option<bool>,
    pub icon_default_save_path: Option<String>,
    pub icon_default_format: Option<String>,
    pub icon_default_png_size: Option<u32>,
    pub icon_cache_expiry_minutes: Option<u64>,
}

/// A prompt of the user's own.
pub struct CustomPrompt {
    pub id: String,
    pub name: String,
    pub content: String,
    pub description: Option<String>,
    pub sort_order: i32,
    pub created_at: String,
    pub updated_at: String,
    /// `normal` or `conditional`.
    pub prompt_type: String,
    pub condition_text: Option<String>,
    pub template_true: Option<String>,
    pub template_false: Option<String>,
    pub current_state: bool,
    pub linked_mcp_tool: Option<String>,
}

/// The custom prompts.
pub struct CustomPromptConfig {
    pub prompts: Vec<CustomPrompt>,
    pub enabled: bool,
    pub max_prompts: u32,
}

/// The keys of a shortcut.
pub struct ShortcutKey {
    pub key: String,
    pub ctrl: bool,
    pub alt: bool,
    pub shift: bool,
    pub meta: bool,
}

/// A shortcut and what it does.
pub struct ShortcutBinding {
    pub id: String,
    pub name: String,
    pub description: String,
    /// `submit`, `exit` or `custom`.
    pub action: String,
    pub key_combination: ShortcutKey,
    pub enabled: bool,
    /// `global`, `popup` or `input`.
    pub scope: String,
}

/// The shortcuts, each under its name, no name twice.
pub struct ShortcutConfig {
    pub shortcuts: Vec<(String, ShortcutBinding)>,
}

/// The Telegram bot.
pub struct TelegramConfig {
    pub enabled: bool,
    pub bot_token: String,
    pub chat_id: String,
    pub hide_frontend_popup: bool,
    pub api_base_url: String,
}

/// The proxy for the application's own requests.
pub struct ProxyConfig {
    pub auto_detect: bool,
    pub enabled: bool,
    pub proxy_type: String,
    pub host: String,
    pub port: u16,
    pub only_for_cn: bool,
}

/// Whether the window stays above the others.
pub fn default_always_on_top() -> (out: bool)
    ensures
        out == true,
{
    true
}

/// Whether a sound announces a request.
pub fn default_audio_notification_enabled() -> (out: bool)
    ensures
        out == false,
{
    false
}

/// Whether the window follows its content.
pub fn default_auto_resize() -> (out: bool)
    ensures
        out == true,
{
    true
}

/// Whether the reply that asks to go on is offered.
pub fn default_enable_continue_reply() -> (out: bool)
    ensures
        out == true,
{
    true
}

/// Whether the window has the fixed size.
pub fn default_window_fixed() -> (out: bool)
    ensures
        out == false,
{
    false
}

/// Whether the Telegram bot is used.
pub fn default_telegram_enabled() -> (out: bool)
    ensures
        out == false,
{
    false
}

/// Whether only Telegram is used, without the window.
pub fn default_telegram_hide_frontend_popup() -> (out: bool)
    ensures
        out == false,
{
    false
}

/// The state of a conditional prompt's switch.
pub fn default_prompt_state() -> (out: bool)
    ensures
        out == false,
{
    false
}

/// Whether the custom prompts are shown.
pub fn default_custom_prompt_enabled() -> (out: bool)
    ensures
        out == true,
{
    true
}

/// Whether a local proxy is looked for.
pub fn default_proxy_auto_detect() -> (out: bool)
    ensures
        out == true,
{
    true
}

/// Whether the proxy named by hand is used.
pub fn default_proxy_enabled() -> (out: bool)
    ensures
        out == false,
{
    false
}

/// Whether the proxy is used only from mainland China.
pub fn default_proxy_only_for_cn() -> (out: bool)
    ensures
        out == true,
{
    true
}

/// The colour theme.
pub fn default_theme() -> (out: String)
    ensures
        out@ == "dark"@,
{
    "dark".to_owned()
}

/// The address of a sound of the user's own.
pub fn default_audio_url() -> (out: String)
    ensures
        out@ == Seq::<char>::empty(),
{
    String::new()
}

/// The text of the reply that asks to go on.
pub fn default_continue_prompt() -> (out: String)
    ensures
        out@ == "请按照最佳实践继续"@,
{
    "请按照最佳实践继续".to_owned()
}

/// The token of the Telegram bot.
pub fn default_telegram_bot_token() -> (out: String)
    ensures
        out@ == Seq::<char>::empty(),
{
    String::new()
}

/// The Telegram chat.
pub fn default_telegram_chat_id() -> (out: String)
    ensures
        out@ == Seq::<char>::empty(),
{
    String::new()
}

/// Where the Telegram API is reached.
pub fn default_telegram_api_base_url() -> (out: String)
    ensures
        out@ == "https://api.telegram.org/bot"@,
{
    "https://api.telegram.org/bot".to_owned()
}

/// The font family.
pub fn default_font_family() -> (out: String)
    ensures
        out@ == "inter"@,
{
    "inter".to_owned()
}

/// The font size.
pub fn default_font_size() -> (out: String)
    ensures
        out@ == "medium"@,
{
    "medium".to_owned()
}

/// The font stack of the user's own.
pub fn default_custom_font_family() -> (out: String)
    ensures
        out@ == "Inter, -apple-system, BlinkMacSystemFont, 'Segoe UI', Roboto, sans-serif"@,
{
    "Inter, -apple-system, BlinkMacSystemFont, 'Segoe UI', Roboto, sans-serif".to_owned()
}

/// The kind of a custom prompt.
pub fn default_prompt_type() -> (out: String)
    ensures
        out@ == "normal"@,
{
    "normal".to_owned()
}

/// The proxy protocol.
pub fn default_proxy_type() -> (out: String)
    ensures
        out@ == "http"@,
{
    "http".to_owned()
}

/// The proxy host.
pub fn default_proxy_host() -> (out: String)
    ensures
        out@ == "127.0.0.1"@,
{
    "127.0.0.1".to_owned()
}

/// Characters from which a reply counts as long.
pub fn default_auto_continue_threshold() -> (out: u32)
    ensures
        out == 1000,
{
    1000
}

/// The greatest number of custom prompts.
pub fn default_custom_prompt_max_prompts() -> (out: u32)
    ensures
        out == 50,
{
    50
}

/// The proxy port.
pub fn default_proxy_port() -> (out: u16)
    ensures
        out == 7890,
{
    7890
}

/// The sounds: none, and no address of the user's own.
pub fn default_audio_config() -> (out: AudioConfig)
    ensures
        out.notification_enabled == false,
        out.custom_url@ == Seq::<char>::empty(),
{
    AudioConfig {
        notification_enabled: default_audio_notification_enabled(),
        custom_url: default_audio_url(),
    }
}

/// The reply that asks to go on: offered, from 1000 characters.
pub fn default_reply_config() -> (out: ReplyConfig)
    ensures
        out.enable_continue_reply == true,
        out.auto_continue_threshold == 1000,
        out.continue_prompt@ == "请按照最佳实践继续"@,
{
    ReplyConfig {
        enable_continue_reply: default_enable_continue_reply(),
        auto_continue_threshold: default_auto_continue_threshold(),
        continue_prompt: default_continue_prompt(),
    }
}

/// The fonts.
pub fn default_font_config() -> (out: FontConfig)
    ensures
        out.font_family@ == "inter"@,
        out.font_size@ == "medium"@,
        out.custom_font_family@
            == "Inter, -apple-system, BlinkMacSystemFont, 'Segoe UI', Roboto, sans-serif"@,
{
    FontConfig {
        font_family: default_font_family(),
        font_size: default_font_size(),
        custom_font_family: default_custom_font_family(),
    }
}

/// The Telegram bot: not used.
pub fn default_telegram_config() -> (out: TelegramConfig)
    ensures
        out.enabled == false,
        out.bot_token@ == Seq::<char>::empty(),
        out.chat_id@ == Seq::<char>::empty(),
        out.hide_frontend_popup == false,
        out.api_base_url@ == "https://api.telegram.org/bot"@,
{
    TelegramConfig {
        enabled: default_telegram_enabled(),
        bot_token: default_telegram_bot_token(),
        chat_id: default_telegram_chat_id(),
        hide_frontend_popup: default_telegram_hide_frontend_popup(),
        api_base_url: default_telegram_api_base_url(),
    }
}

/// The proxy: looked for, not named by hand.
pub fn default_proxy_config() -> (out: ProxyConfig)
    ensures
        out.auto_detect == true,
        out.enabled == false,
        out.proxy_type@ == "http"@,
        out.host@ == "127.0.0.1"@,
        out.port == 7890,
        out.only_for_cn == true,
{
    ProxyConfig {
        auto_detect: default_proxy_auto_detect(),
        enabled: default_proxy_enabled(),
        proxy_type: default_proxy_type(),
        host: default_proxy_host(),
        port: default_proxy_port(),
        only_for_cn: default_proxy_only_for_cn(),
    }
}

/// The tools with their switches: the code search and the prompt enhancer
/// need a service to be configured and are off, the others are on.
pub open spec fn default_tool_switches() -> Seq<(Seq<char>, bool)> {
    seq![
        ("zhi"@, true),
        ("ji"@, true),
        ("sou"@, false),
        ("context7"@, true),
        ("uiux"@, true),
        ("enhance"@, false),
    ]
}

/// The tools with their switches.
pub fn default_mcp_tools() -> (out: Vec<(String, bool)>)
    ensures
        out.deep_view() == default_tool_switches(),
{
    let mut out: Vec<(String, bool)> = Vec::new();
    out.push(("zhi".to_owned(), true));
    out.push(("ji".to_owned(), true));
    out.push(("sou".to_owned(), false));
    out.push(("context7".to_owned(), true));
    out.push(("uiux".to_owned(), true));
    out.push(("enhance".to_owned(), false));
    proof {
        assert(out.deep_view() =~= default_tool_switches());
    }
    out
}

/// The tools: the default switches, nothing configured for the code index
/// and the icons, and for the design search Chinese, JSON, at most ten
/// results, with beautifying.
pub fn default_mcp_config() -> (out: McpConfig)
    ensures
        out.tools.deep_view() == default_tool_switches(),
        out.acemcp_base_url is None,
        out.acemcp_token is None,
        out.acemcp_batch_size is None,
        out.acemcp_max_lines_per_blob is None,
        out.acemcp_text_extensions is None,
        out.acemcp_exclude_patterns is None,
        out.acemcp_watch_debounce_ms is None,
        out.acemcp_auto_index_enabled is None,
        out.acemcp_index_nested_projects is None,
        out.acemcp_proxy_enabled is None,
        out.acemcp_proxy_host is None,
        out.acemcp_proxy_port is None,
        out.acemcp_proxy_type is None,
        out.acemcp_proxy_username is None,
        out.acemcp_proxy_password is None,
        out.context7_api_key is None,
        out.skill_python_path is None,
        out.uiux_default_lang matches Some(lang) && lang@ == "zh"@,
        out.uiux_output_format matches Some(format) && format@ == "json"@,
        out.uiux_max_results_cap == Some(10u32),
        out.uiux_beautify_enabled == Some(true),
        out.icon_default_save_path is None,
        out.icon_default_format is None,
        out.icon_default_png_size is None,
        out.icon_cache_expiry_minutes is None,
{
    McpConfig {
        tools: default_mcp_tools(),
        acemcp_base_url: None,
        acemcp_token: None,
        acemcp_batch_size: None,
        acemcp_max_lines_per_blob: None,
        acemcp_text_extensions: None,
        acemcp_exclude_patterns: None,
        acemcp_watch_debounce_ms: None,
        acemcp_auto_index_enabled: None,
        acemcp_index_nested_projects: None,
        acemcp_proxy_enabled: None,
        acemcp_proxy_host: None,
        acemcp_proxy_port: None,
        acemcp_proxy_type: None,
        acemcp_proxy_username: None,
        acemcp_proxy_password: None,
        context7_api_key: None,
        skill_python_path: None,
        uiux_default_lang: Some("zh".to_owned()),
        uiux_output_format: Some("json".to_owned()),
        uiux_max_results_cap: Some(10),
        uiux_beautify_enabled: Some(true),
        icon_default_save_path: None,
        icon_default_format: None,
        icon_default_png_size: None,
        icon_cache_expiry_minutes: None,
    }
}

/// A shortcut of the window on the key `Enter`.
fn enter_shortcut(
    id: &str,
    name: &str,
    description: &str,
    ctrl: bool,
    alt: bool,
    shift: bool,
) -> (out: (String, ShortcutBinding))
    ensures
        out.0@ == id@,
        out.1.id@ == id@,
        out.1.name@ == name@,
        out.1.description@ == description@,
        out.1.action@ == if id@ == "quick_submit"@ {
            "submit"@
        } else {
            id@
        },
        out.1.key_combination.key@ == "Enter"@,
        out.1.key_combination.ctrl == ctrl,
        out.1.key_combination.alt == alt,
        out.1.key_combination.shift == shift,
        out.1.key_combination.meta == false,
        out.1.enabled,
        out.1.scope@ == "popup"@,
{
    let action = if crate::strings::str_eq(id, "quick_submit") {
        "submit".to_owned()
    } else {
        id.to_owned()
    };
    (
        id.to_owned(),
        ShortcutBinding {
            id: id.to_owned(),
            name: name.to_owned(),
            description: description.to_owned(),
            action,
            key_combination: ShortcutKey { key: "Enter".to_owned(), ctrl, alt, shift, meta: false },
            enabled: true,
            scope: "popup".to_owned(),
        },
    )
}

/// The shortcuts: send with Ctrl+Enter, enhance with Ctrl+Shift+Enter, go on
/// with Alt+Enter, all three in the window and switched on.
pub fn default_shortcuts() -> (out: Vec<(String, ShortcutBinding)>)
    ensures
        out@.len() == 3,
        out@[0].0@ == "quick_submit"@ && out@[0].1.action@ == "submit"@,
        out@[1].0@ == "enhance"@ && out@[1].1.action@ == "enhance"@,
        out@[2].0@ == "continue"@ && out@[2].1.action@ == "continue"@,
        out@[0].1.name@ == "快速发送"@ && out@[0].1.description@ == "快速提交当前输入内容"@,
        out@[1].1.name@ == "增强"@ && out@[1].1.description@ == "增强当前输入内容"@,
        out@[2].1.name@ == "继续"@ && out@[2].1.description@ == "继续对话"@,
        out@[0].1.key_combination.ctrl && !out@[0].1.key_combination.alt
            && !out@[0].1.key_combination.shift,
        out@[1].1.key_combination.ctrl && !out@[1].1.key_combination.alt
            && out@[1].1.key_combination.shift,
        !out@[2].1.key_combination.ctrl && out@[2].1.key_combination.alt
            && !out@[2].1.key_combination.shift,
        forall|i: int|
            0 <= i < 3 ==> {
                &&& (#[trigger] out@[i]).1.id@ == out@[i].0@
                &&& out@[i].1.key_combination.key@ == "Enter"@
                &&& !out@[i].1.key_combination.meta
                &&& out@[i].1.enabled
                &&& out@[i].1.scope@ == "popup"@
            },
{
    proof {
        reveal_strlit("quick_submit");
        reveal_strlit("enhance");
        reveal_strlit("continue");
    }
    let mut out: Vec<(String, ShortcutBinding)> = Vec::new();
    out.push(enter_shortcut("quick_submit", "快速发送", "快速提交当前输入内容", true, false, false));
    out.push(enter_shortcut("enhance", "增强", "增强当前输入内容", true, false, true));
    out.push(enter_shortcut("continue", "继续", "继续对话", false, true, false));
    out
}

/// The shortcuts.
pub fn default_shortcut_config() -> (out: ShortcutConfig)
    ensures
        out.shortcuts@.len() == 3,
        out.shortcuts@[0].0@ == "quick_submit"@,
        out.shortcuts@[1].0@ == "enhance"@,
        out.shortcuts@[2].0@ == "continue"@,
        forall|i: int|
            0 <= i < 3 ==> {
                &&& (#[trigger] out.shortcuts@[i]).1.id@ == out.shortcuts@[i].0@
                &&& out.shortcuts@[i].1.key_combination.key@ == "Enter"@
                &&& out.shortcuts@[i].1.enabled
                &&& out.shortcuts@[i].1.scope@ == "popup"@
            },
{
    ShortcutConfig { shortcuts: default_shortcuts() }
}

/// The identifier of the built-in prompt number `n`.
pub open spec fn builtin_prompt_id(n: nat) -> Seq<char> {
    "default_"@ + decimal(n)
}

/// A built-in prompt that puts `content` into the input.
fn normal_prompt(n: u8, name: &str, content: &str, description: &str, now: &str) -> (out:
    CustomPrompt)
    ensures
        out.id@ == builtin_prompt_id(n as nat),
        out.name@ == name@,
        out.content@ == content@,
        out.description matches Some(d) && d@ == description@,
        out.sort_order == n,
        out.created_at@ == now@,
        out.updated_at@ == now@,
        out.prompt_type@ == "normal"@,
        out.condition_text is None,
        out.template_true is None,
        out.template_false is None,
        !out.current_state,
        out.linked_mcp_tool is None,
{
    let mut id = chars_of("default_");
    let digits = decimal_digits(n as u64);
    push_all(&mut id, &digits);
    CustomPrompt {
        id: to_string(&id),
        name: name.to_owned(),
        content: content.to_owned(),
        description: Some(description.to_owned()),
        sort_order: n as i32,
        created_at: now.to_owned(),
        updated_at: now.to_owned(),
        prompt_type: default_prompt_type(),
        condition_text: None,
        template_true: None,
        template_false: None,
        current_state: false,
        linked_mcp_tool: None,
    }
}

/// A built-in prompt with a switch: it adds `template_true` or
/// `template_false` as the switch stands.
fn conditional_prompt(
    n: u8,
    name: &str,
    description: &str,
    template_true: &str,
    template_false: &str,
    current_state: bool,
    linked_mcp_tool: Option<String>,
    now: &str,
) -> (out: CustomPrompt)
    ensures
        out.id@ == builtin_prompt_id(n as nat),
        out.name@ == name@,
        out.content@ == Seq::<char>::empty(),
        out.description matches Some(d) && d@ == description@,
        out.sort_order == n,
        out.created_at@ == now@,
        out.updated_at@ == now@,
        out.prompt_type@ == "conditional"@,
        out.condition_text matches Some(c) && c@ == name@,
        out.template_true matches Some(t) && t@ == template_true@,
        out.template_false matches Some(t) && t@ == template_false@,
        out.current_state == current_state,
        out.linked_mcp_tool == linked_mcp_tool,
{
    let mut id = chars_of("default_");
    let digits = decimal_digits(n as u64);
    push_all(&mut id, &digits);
    CustomPrompt {
        id: to_string(&id),
        name: name.to_owned(),
        content: String::new(),
        description: Some(description.to_owned()),
        sort_order: n as i32,
        created_at: now.to_owned(),
        updated_at: now.to_owned(),
        prompt_type: "conditional".to_owned(),
        condition_text: Some(name.to_owned()),
        template_true: Some(template_true.to_owned()),
        template_false: Some(template_false.to_owned()),
        current_state,
        linked_mcp_tool,
    }
}

/// The twelve built-in prompts, made at the time `now`: six that put a text
/// into the input, then six with a switch. Only the last one is switched
/// on; the last two belong to the tools `sou` and `context7`.
pub fn default_custom_prompts(now: &str) -> (out: Vec<CustomPrompt>)
    ensures
        out@.len() == 12,
        forall|i: int|
            0 <= i < 12 ==> {
                &&& (#[trigger] out@[i]).id@ == builtin_prompt_id((i + 1) as nat)
                &&& out@[i].sort_order == i + 1
                &&& out@[i].created_at@ == now@
                &&& out@[i].updated_at@ == now@
                &&& out@[i].prompt_type@ == if i < 6 {
                    "normal"@
                } else {
                    "conditional"@
                }
                &&& out@[i].condition_text is Some <==> i >= 6
                &&& out@[i].template_true is Some <==> i >= 6
                &&& out@[i].template_false is Some <==> i >= 6
                &&& out@[i].current_state <==> i == 11
                &&& out@[i].linked_mcp_tool is Some <==> i >= 10
            },
        out@[10].linked_mcp_tool->0@ == "sou"@,
        out@[11].linked_mcp_tool->0@ == "context7"@,
{
    let mut out: Vec<CustomPrompt> = Vec::new();
    out.push(normal_prompt(1, "✅Done", "结束当前对话", "请求AI结束工作", now));
    out.push(normal_prompt(2, "🧹Clear", "", "清空输入框内容", now));
    out.push(normal_prompt(3, "✨New Issue", "ok，完美，新的需求or问题，", "准备新的需求or问题", now));
    out.push(normal_prompt(4, "🧠Remember", "请记住，", "三术的另一个工具，请记住", now));
    out.push(
        normal_prompt(
            5,
            "📝Summary And Restart",
            "本次对话的上下文已经太长了，我打算关掉并重新开一个新的会话。你有什么想对你的继任者说的，以便它能更好的理解你当前的工作并顺利继续？",
            "总结-开新会话",
            now,
        ),
    );
    out.push(
        normal_prompt(
            6,
            "🔍Review And Plan",
            "请执行以下项目进度检查和规划任务：\n\n1. **项目进度分析**：\n   - 查看当前代码库状态，分析已完成的功能模块\n   - 识别已完成、进行中和待开始的功能点\n\n2. **里程碑确定**：\n   - 基于当前进度和剩余工作量，定义清晰的里程碑节点\n   - 为每个里程碑设定具体的完成标准和时间预期\n   - 优先考虑核心任务管理功能的里程碑\n\n3. **文档更新**（注意：仅更新现有文档，不创建新文档）：\n   - 更新项目规划文档中的进度状态\n   - 修正任何与实际实现不符的技术方案描述\n   - 确保文档反映当前的技术栈和架构决策\n\n4. **下一步工作规划**：\n   - 基于用户偏好（系统化开发方法、前端优先、分步骤反馈）制定具体的下一阶段工作计划\n   - 识别关键路径上的阻塞点和依赖关系\n   - 提供3-5个具体的下一步行动项，按优先级排序\n\n5. **反馈收集**：\n   - 在完成分析后，使用三术工具收集用户对进度评估和下一步计划的反馈\n   - 提供多个可选的发展方向供用户选择",
            "项目进度检查和规划任务",
            now,
        ),
    );
    out.push(
        conditional_prompt(
            7,
            "是否生成总结性Markdown文档",
            "是否生成总结性Markdown文档",
            "✔️请记住，帮我生成总结性Markdown文档",
            "❌请记住，不要生成总结性Markdown文档",
            false,
            None,
            now,
        ),
    );
    out.push(
        conditional_prompt(
            8,
            "是否生成测试脚本",
            "是否生成测试脚本",
            "✔️请记住，帮我生成测试脚本",
            "❌请记住，不要生成测试脚本",
            false,
            None,
            now,
        ),
    );
    out.push(
        conditional_prompt(
            9,
            "是否主动编译",
            "是否主动编译",
            "✔️请记住，帮我编译",
            "❌请记住，不要编译，用户自己编译",
            false,
            None,
            now,
        ),
    );
    out.push(
        conditional_prompt(
            10,
            "是否主动运行",
            "是否主动运行",
            "✔️请记住，帮我运行",
            "❌请记住，不要运行，用户自己运行",
            false,
            None,
            now,
        ),
    );
    out.push(
        conditional_prompt(
            11,
            "是否启用代码搜索工具",
            "控制 sou 代码语义搜索工具的使用",
            "✔️请记住，使用 sou 进行代码语义搜索，根据结果到指定位置查看更多上下文",
            "",
            false,
            Some("sou".to_owned()),
            now,
        ),
    );
    out.push(
        conditional_prompt(
            12,
            "是否启用框架文档查询",
            "控制 context7 框架文档查询工具的使用",
            "✔️请记住，使用 context7 查询框架/库的最新官方文档和 API 用法",
            "",
            true,
            Some("context7".to_owned()),
            now,
        ),
    );
    out
}

/// The custom prompts: the built-in ones, shown, fifty at most.
pub fn default_custom_prompt_config(now: &str) -> (out: CustomPromptConfig)
    ensures
        out.prompts@.len() == 12,
        forall|i: int|
            0 <= i < 12 ==> {
                &&& (#[trigger] out.prompts@[i]).id@ == builtin_prompt_id((i + 1) as nat)
                &&& out.prompts@[i].sort_order == i + 1
                &&& out.prompts@[i].created_at@ == now@
            },
        out.enabled,
        out.max_prompts == 50,
{
    CustomPromptConfig {
        prompts: default_custom_prompts(now),
        enabled: default_custom_prompt_enabled(),
        max_prompts: default_custom_prompt_max_prompts(),
    }
}

} // verus!
