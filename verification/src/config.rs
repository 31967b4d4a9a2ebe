//! What the engine is configured with, what a caller asks of it, and the
//! errors it reports.

use crate::strings::clone_list;
use crate::text::{chars_of, starts_with, to_string, trim, trimmed};
use vstd::prelude::*;
use vstd::utf8::encode_utf8;

verus! {

/// Blobs in one upload where the configuration names no batch size.
pub const DEFAULT_BATCH_SIZE: u32 = 10;

/// Lines in one blob where the configuration names no limit.
pub const DEFAULT_MAX_LINES_PER_BLOB: u32 = 800;

/// A search request: the project and the question.
pub struct AcemcpRequest {
    pub project_root_path: String,
    pub query: String,
}

/// The configuration of the remote retrieval service and of the scan.
pub struct AcemcpConfig {
    pub base_url: Option<String>,
    pub token: Option<String>,
    pub batch_size: Option<u32>,
    pub max_lines_per_blob: Option<u32>,
    pub text_extensions: Option<Vec<String>>,
    pub exclude_patterns: Option<Vec<String>>,
    /// Least and greatest number of seconds to wait before a search while an
    /// update is under way.
    pub smart_wait_range: Option<(u64, u64)>,
    pub proxy_enabled: Option<bool>,
    pub proxy_host: Option<String>,
    pub proxy_port: Option<u16>,
    pub proxy_type: Option<String>,
    pub proxy_username: Option<String>,
    pub proxy_password: Option<String>,
}

/// Why an update or a search did not go through.
#[derive(Clone, Copy, Debug, PartialEq, Eq, Structural)]
pub enum IndexError {
    /// The configuration names no endpoint.
    MissingBaseUrl,
    /// The endpoint lacks `http://` or `https://`, or a host.
    InvalidBaseUrl,
    /// The configuration names no token.
    MissingToken,
    /// The proxy type is none of `http`, `https`, `socks5`.
    UnsupportedProxyType,
    /// The project root does not exist.
    RootNotFound,
    /// The scan found no file to index.
    NoIndexableFiles,
    /// Nothing is retained after the update.
    NoBlobsAfterIndexing,
    /// The project has no retained address to search with.
    NotIndexed,
}

/// The values that one update runs with.
pub struct RunSettings {
    pub base_url: String,
    pub token: String,
    pub batch_size: usize,
    pub max_lines: usize,
    pub text_extensions: Vec<String>,
    pub exclude_patterns: Vec<String>,
}

/// `url` names a scheme, and more than a scheme.
pub open spec fn valid_endpoint(url: Seq<char>) -> bool {
    &&& "http://"@.is_prefix_of(url) || "https://"@.is_prefix_of(url)
    &&& encode_utf8(trimmed(url)).len() > 8
}

/// The error that an update with `config` ends with before it begins, if any.
pub open spec fn config_error(config: AcemcpConfig) -> Option<IndexError> {
    match config.base_url {
        None => Some(IndexError::MissingBaseUrl),
        Some(url) => if !valid_endpoint(url@) {
            Some(IndexError::InvalidBaseUrl)
        } else if config.token is None {
            Some(IndexError::MissingToken)
        } else {
            None
        },
    }
}

/// The strings of an optional list; none where there is no list.
pub open spec fn list_or_empty(list: Option<Vec<String>>) -> Seq<Seq<char>> {
    match list {
        Some(l) => l.deep_view(),
        None => Seq::empty(),
    }
}

/// A copy of an optional list, empty where there is none.
pub fn cloned_or_empty(list: &Option<Vec<String>>) -> (out: Vec<String>)
    ensures
        out.deep_view() == list_or_empty(*list),
{
    match list {
        Some(l) => clone_list(l),
        None => {
            let out: Vec<String> = Vec::new();
            proof {
                assert(out.deep_view() =~= Seq::<Seq<char>>::empty());
            }
            out
        },
    }
}

/// Whether `url` names a scheme, and more than a scheme.
pub fn is_valid_endpoint(url: &str) -> (r: bool)
    ensures
        r == valid_endpoint(url@),
{
    let cs = chars_of(url);
    let http = chars_of("http://");
    let https = chars_of("https://");
    let has_scheme = starts_with(&cs, &http) || starts_with(&cs, &https);
    let t = to_string(&trim(&cs));
    let has_host = t.as_str().as_bytes().len() > 8;
    has_scheme && has_host
}

/// Checks `config` for an update and gives the values to run it with. The
/// batch size defaults to 10, the lines of a blob to 800, the two lists to
/// empty ones.
pub fn check_config(config: &AcemcpConfig) -> (r: Result<RunSettings, IndexError>)
    ensures
        match r {
            Err(e) => config_error(*config) == Some(e),
            Ok(s) => {
                &&& config_error(*config) is None
                &&& s.base_url@ == config.base_url->0@
                &&& s.token@ == config.token->0@
                &&& s.batch_size == match config.batch_size {
                    Some(n) => n,
                    None => DEFAULT_BATCH_SIZE,
                }
                &&& s.max_lines == match config.max_lines_per_blob {
                    Some(n) => n,
                    None => DEFAULT_MAX_LINES_PER_BLOB,
                }
                &&& s.text_extensions.deep_view() == list_or_empty(config.text_extensions)
                &&& s.exclude_patterns.deep_view() == list_or_empty(config.exclude_patterns)
            },
        },
{
    let base_url = match &config.base_url {
        Some(u) => u,
        None => {
            return Err(IndexError::MissingBaseUrl);
        },
    };
    if !is_valid_endpoint(base_url.as_str()) {
        return Err(IndexError::InvalidBaseUrl);
    }
    let token = match &config.token {
        Some(t) => t,
        None => {
            return Err(IndexError::MissingToken);
        },
    };
    let batch_size: u32 = match config.batch_size {
        Some(n) => n,
        None => DEFAULT_BATCH_SIZE,
    };
    let max_lines: u32 = match config.max_lines_per_blob {
        Some(n) => n,
        None => DEFAULT_MAX_LINES_PER_BLOB,
    };
    Ok(
        RunSettings {
            base_url: base_url.clone(),
            token: token.clone(),
            batch_size: batch_size as usize,
            max_lines: max_lines as usize,
            text_extensions: cloned_or_empty(&config.text_extensions),
            exclude_patterns: cloned_or_empty(&config.exclude_patterns),
        },
    )
}

impl IndexError {
    /// The error in words.
    pub fn message(&self) -> (out: String)
        ensures
            out@ == match *self {
                IndexError::MissingBaseUrl => "未配置 base_url"@,
                IndexError::InvalidBaseUrl => "无效的 base_url，请填写完整的 http(s)://host[:port] 格式"@,
                IndexError::MissingToken => "未配置 token"@,
                IndexError::UnsupportedProxyType => "不支持的代理类型（仅支持 http/https/socks5）"@,
                IndexError::RootNotFound => "项目根目录不存在"@,
                IndexError::NoIndexableFiles => "未在项目中找到可索引的文本文件"@,
                IndexError::NoBlobsAfterIndexing => "索引后未找到 blobs"@,
                IndexError::NotIndexed => "项目尚未索引或索引为空，请先执行索引操作"@,
            },
    {
        let text: &str = match self {
            IndexError::MissingBaseUrl => "未配置 base_url",
            IndexError::InvalidBaseUrl => "无效的 base_url，请填写完整的 http(s)://host[:port] 格式",
            IndexError::MissingToken => "未配置 token",
            IndexError::UnsupportedProxyType => "不支持的代理类型（仅支持 http/https/socks5）",
            IndexError::RootNotFound => "项目根目录不存在",
            IndexError::NoIndexableFiles => "未在项目中找到可索引的文本文件",
            IndexError::NoBlobsAfterIndexing => "索引后未找到 blobs",
            IndexError::NotIndexed => "项目尚未索引或索引为空，请先执行索引操作",
        };
        text.to_owned()
    }
}

} // verus!
