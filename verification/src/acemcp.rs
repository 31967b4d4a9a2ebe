//! The settings of the code index as the application keeps and shows them.

use crate::config::{
    list_or_empty, AcemcpConfig, DEFAULT_BATCH_SIZE, DEFAULT_MAX_LINES_PER_BLOB,
};
use crate::paths::{base_url, normalize_base_url};
use crate::settings::McpConfig;
use crate::status::{fresh_status, ProjectIndexStatus, ProjectsIndexStatus};
use crate::strings::clone_list;
use crate::text::{chars_of, is_space, is_whitespace, push_str, starts_with, to_string};
use vstd::prelude::*;

verus! {

/// Least and greatest number of seconds that a search waits for an update
/// under way.
pub const SMART_WAIT_SECS: (u64, u64) = (1, 5);

/// The code index as a tool.
pub struct AcemcpTool;

/// The settings of the code index as they are entered.
pub struct SaveAcemcpConfigArgs {
    pub base_url: String,
    pub token: String,
    pub batch_size: u32,
    pub max_lines_per_blob: u32,
    pub text_extensions: Vec<String>,
    pub exclude_patterns: Vec<String>,
}

/// The endpoint and the token to try.
pub struct TestAcemcpArgs {
    pub base_url: String,
    pub token: String,
}

/// How a try of the endpoint went.
pub struct TestConnectionResult {
    pub success: bool,
    pub message: String,
}

/// The settings of the code index as they are shown.
pub struct AcemcpConfigResponse {
    pub base_url: Option<String>,
    pub token: Option<String>,
    pub batch_size: u32,
    pub max_lines_per_blob: u32,
    pub text_extensions: Vec<String>,
    pub exclude_patterns: Vec<String>,
}

/// How a search for inspection went.
pub struct DebugSearchResult {
    pub success: bool,
    pub result: Option<String>,
    pub error: Option<String>,
}

/// The copy of an optional string.
pub open spec fn text_of_option(s: Option<String>) -> Option<Seq<char>> {
    match s {
        Some(t) => Some(t@),
        None => None,
    }
}

/// The extensions that are indexed where the settings name none.
pub open spec fn usual_text_extensions() -> Seq<Seq<char>> {
    seq![
        ".py"@,
        ".js"@,
        ".ts"@,
        ".jsx"@,
        ".tsx"@,
        ".java"@,
        ".go"@,
        ".rs"@,
        ".cpp"@,
        ".c"@,
        ".h"@,
        ".hpp"@,
        ".cs"@,
        ".rb"@,
        ".php"@,
        ".md"@,
        ".txt"@,
        ".json"@,
        ".yaml"@,
        ".yml"@,
        ".toml"@,
        ".xml"@,
        ".html"@,
        ".css"@,
        ".scss"@,
        ".sql"@,
        ".sh"@,
        ".bash"@,
    ]
}

/// The patterns that are excluded where the settings name none.
pub open spec fn usual_exclude_patterns() -> Seq<Seq<char>> {
    seq!["node_modules"@, ".git"@, "target"@, "dist"@]
}

/// Every character of `s` is white space.
pub open spec fn is_blank(s: Seq<char>) -> bool {
    forall|i: int| 0 <= i < s.len() ==> is_space(#[trigger] s[i])
}

/// A copy of an optional string.
fn clone_option(s: &Option<String>) -> (out: Option<String>)
    ensures
        text_of_option(out) == text_of_option(*s),
{
    match s {
        Some(t) => Some(t.clone()),
        None => None,
    }
}

/// The extensions that are indexed where the settings name none.
pub fn default_text_extensions() -> (out: Vec<String>)
    ensures
        out.deep_view() == usual_text_extensions(),
{
    let mut out: Vec<String> = Vec::new();
    out.push(".py".to_owned());
    out.push(".js".to_owned());
    out.push(".ts".to_owned());
    out.push(".jsx".to_owned());
    out.push(".tsx".to_owned());
    out.push(".java".to_owned());
    out.push(".go".to_owned());
    out.push(".rs".to_owned());
    out.push(".cpp".to_owned());
    out.push(".c".to_owned());
    out.push(".h".to_owned());
    out.push(".hpp".to_owned());
    out.push(".cs".to_owned());
    out.push(".rb".to_owned());
    out.push(".php".to_owned());
    out.push(".md".to_owned());
    out.push(".txt".to_owned());
    out.push(".json".to_owned());
    out.push(".yaml".to_owned());
    out.push(".yml".to_owned());
    out.push(".toml".to_owned());
    out.push(".xml".to_owned());
    out.push(".html".to_owned());
    out.push(".css".to_owned());
    out.push(".scss".to_owned());
    out.push(".sql".to_owned());
    out.push(".sh".to_owned());
    out.push(".bash".to_owned());
    proof {
        assert(out.deep_view() =~= usual_text_extensions());
    }
    out
}

impl AcemcpTool {
    /// The configuration of the engine from the settings of the tools. A
    /// search waits one to five seconds for an update under way.
    pub fn get_acemcp_config(mcp: &McpConfig) -> (out: AcemcpConfig)
        ensures
            text_of_option(out.base_url) == text_of_option(mcp.acemcp_base_url),
            text_of_option(out.token) == text_of_option(mcp.acemcp_token),
            out.batch_size == mcp.acemcp_batch_size,
            out.max_lines_per_blob == mcp.acemcp_max_lines_per_blob,
            out.text_extensions is Some == mcp.acemcp_text_extensions is Some,
            list_or_empty(out.text_extensions) == list_or_empty(mcp.acemcp_text_extensions),
            out.exclude_patterns is Some == mcp.acemcp_exclude_patterns is Some,
            list_or_empty(out.exclude_patterns) == list_or_empty(mcp.acemcp_exclude_patterns),
            out.smart_wait_range == Some(SMART_WAIT_SECS),
            out.proxy_enabled == mcp.acemcp_proxy_enabled,
            text_of_option(out.proxy_host) == text_of_option(mcp.acemcp_proxy_host),
            out.proxy_port == mcp.acemcp_proxy_port,
            text_of_option(out.proxy_type) == text_of_option(mcp.acemcp_proxy_type),
            text_of_option(out.proxy_username) == text_of_option(mcp.acemcp_proxy_username),
            text_of_option(out.proxy_password) == text_of_option(mcp.acemcp_proxy_password),
    {
        let text_extensions = match &mcp.acemcp_text_extensions {
            Some(l) => Some(clone_list(l)),
            None => None,
        };
        let exclude_patterns = match &mcp.acemcp_exclude_patterns {
            Some(l) => Some(clone_list(l)),
            None => None,
        };
        AcemcpConfig {
            base_url: clone_option(&mcp.acemcp_base_url),
            token: clone_option(&mcp.acemcp_token),
            batch_size: mcp.acemcp_batch_size,
            max_lines_per_blob: mcp.acemcp_max_lines_per_blob,
            text_extensions,
            exclude_patterns,
            smart_wait_range: Some(SMART_WAIT_SECS),
            proxy_enabled: mcp.acemcp_proxy_enabled,
            proxy_host: clone_option(&mcp.acemcp_proxy_host),
            proxy_port: mcp.acemcp_proxy_port,
            proxy_type: clone_option(&mcp.acemcp_proxy_type),
            proxy_username: clone_option(&mcp.acemcp_proxy_username),
            proxy_password: clone_option(&mcp.acemcp_proxy_password),
        }
    }

    /// The status of the project with the key `project_key`.
    pub fn get_index_status(statuses: &ProjectsIndexStatus, project_key: &String) -> (out:
        ProjectIndexStatus)
        requires
            statuses.wf(),
        ensures
            out@ == if statuses@.contains_key(project_key@) {
                statuses@[project_key@]
            } else {
                fresh_status(project_key@)
            },
    {
        statuses.get_project_status(project_key)
    }
}

/// Puts the settings `args` into `mcp`, the endpoint normalized.
pub fn save_acemcp_config(args: SaveAcemcpConfigArgs, mcp: &mut McpConfig)
    ensures
        text_of_option(final(mcp).acemcp_base_url) == Some(base_url(args.base_url@)),
        text_of_option(final(mcp).acemcp_token) == Some(args.token@),
        final(mcp).acemcp_batch_size == Some(args.batch_size),
        final(mcp).acemcp_max_lines_per_blob == Some(args.max_lines_per_blob),
        final(mcp).acemcp_text_extensions == Some(args.text_extensions),
        final(mcp).acemcp_exclude_patterns == Some(args.exclude_patterns),
        final(mcp).tools == old(mcp).tools,
        final(mcp).acemcp_watch_debounce_ms == old(mcp).acemcp_watch_debounce_ms,
        final(mcp).acemcp_auto_index_enabled == old(mcp).acemcp_auto_index_enabled,
        final(mcp).acemcp_index_nested_projects == old(mcp).acemcp_index_nested_projects,
        final(mcp).acemcp_proxy_enabled == old(mcp).acemcp_proxy_enabled,
        final(mcp).acemcp_proxy_host == old(mcp).acemcp_proxy_host,
        final(mcp).acemcp_proxy_port == old(mcp).acemcp_proxy_port,
        final(mcp).acemcp_proxy_type == old(mcp).acemcp_proxy_type,
        final(mcp).acemcp_proxy_username == old(mcp).acemcp_proxy_username,
        final(mcp).acemcp_proxy_password == old(mcp).acemcp_proxy_password,
{
    mcp.acemcp_base_url = Some(normalize_base_url(args.base_url.as_str()));
    mcp.acemcp_token = Some(args.token);
    mcp.acemcp_batch_size = Some(args.batch_size);
    mcp.acemcp_max_lines_per_blob = Some(args.max_lines_per_blob);
    mcp.acemcp_text_extensions = Some(args.text_extensions);
    mcp.acemcp_exclude_patterns = Some(args.exclude_patterns);
}

/// The settings of the code index as they are shown: ten blobs in a batch,
/// 800 lines in a blob, the usual extensions and exclude patterns where the
/// settings name none.
pub fn get_acemcp_config(mcp: &McpConfig) -> (out: AcemcpConfigResponse)
    ensures
        text_of_option(out.base_url) == text_of_option(mcp.acemcp_base_url),
        text_of_option(out.token) == text_of_option(mcp.acemcp_token),
        out.batch_size == match mcp.acemcp_batch_size {
            Some(n) => n,
            None => DEFAULT_BATCH_SIZE,
        },
        out.max_lines_per_blob == match mcp.acemcp_max_lines_per_blob {
            Some(n) => n,
            None => DEFAULT_MAX_LINES_PER_BLOB,
        },
        out.text_extensions.deep_view() == match mcp.acemcp_text_extensions {
            Some(l) => l.deep_view(),
            None => usual_text_extensions(),
        },
        out.exclude_patterns.deep_view() == match mcp.acemcp_exclude_patterns {
            Some(l) => l.deep_view(),
            None => usual_exclude_patterns(),
        },
{
    let text_extensions = match &mcp.acemcp_text_extensions {
        Some(l) => clone_list(l),
        None => default_text_extensions(),
    };
    let exclude_patterns = match &mcp.acemcp_exclude_patterns {
        Some(l) => clone_list(l),
        None => crate::nested::default_nested_excludes(),
    };
    AcemcpConfigResponse {
        base_url: clone_option(&mcp.acemcp_base_url),
        token: clone_option(&mcp.acemcp_token),
        batch_size: match mcp.acemcp_batch_size {
            Some(n) => n,
            None => DEFAULT_BATCH_SIZE,
        },
        max_lines_per_blob: match mcp.acemcp_max_lines_per_blob {
            Some(n) => n,
            None => DEFAULT_MAX_LINES_PER_BLOB,
        },
        text_extensions,
        exclude_patterns,
    }
}

/// Whether every character of `s` is white space.
pub fn is_blank_text(s: &str) -> (r: bool)
    ensures
        r == is_blank(s@),
{
    let cs = chars_of(s);
    let mut i: usize = 0;
    while i < cs.len()
        invariant
            i <= cs@.len(),
            cs@ == s@,
            forall|j: int| 0 <= j < i ==> is_space(#[trigger] s@[j]),
        decreases cs.len() - i,
    {
        if !is_whitespace(cs[i]) {
            return false;
        }
        i = i + 1;
    }
    true
}

/// What is wrong with an endpoint and a token before they are tried: an
/// endpoint without `http://` or `https://`, or a blank token.
pub fn connection_precheck(base_url: &str, token: &str) -> (out: Option<TestConnectionResult>)
    ensures
        match out {
            Some(result) => {
                &&& !result.success
                &&& if !("http://"@.is_prefix_of(base_url@) || "https://"@.is_prefix_of(
                    base_url@,
                )) {
                    result.message@ == "无效的API端点URL格式，必须以 http:// 或 https:// 开头"@
                } else {
                    is_blank(token@) && result.message@ == "认证令牌不能为空"@
                }
            },
            None => {
                &&& "http://"@.is_prefix_of(base_url@) || "https://"@.is_prefix_of(base_url@)
                &&& !is_blank(token@)
            },
        },
{
    let u = chars_of(base_url);
    if !(starts_with(&u, &chars_of("http://")) || starts_with(&u, &chars_of("https://"))) {
        return Some(
            TestConnectionResult {
                success: false,
                message: "无效的API端点URL格式，必须以 http:// 或 https:// 开头".to_owned(),
            },
        );
    }
    if is_blank_text(token) {
        return Some(
            TestConnectionResult { success: false, message: "认证令牌不能为空".to_owned() },
        );
    }
    None
}

/// Where the health of the service is asked: `base_url`, without one `/` at
/// its end, and `/health`.
pub fn health_url(base_url: &str) -> (url: String)
    ensures
        url@ == (if base_url@.len() > 0 && base_url@.last() == '/' {
            base_url@.drop_last()
        } else {
            base_url@
        }) + "/health"@,
{
    let mut u = chars_of(base_url);
    if u.len() > 0 && u[u.len() - 1] == '/' {
        u.pop();
    }
    push_str(&mut u, "/health");
    to_string(&u)
}

} // verus!
