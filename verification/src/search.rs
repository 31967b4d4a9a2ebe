//! What happens before and after a search: whether an update is started or
//! waited for, what is sent, and what the caller is told.

use crate::config::{AcemcpConfig, IndexError};
use crate::remote::{bearer, search_url};
use crate::status::InitialIndexState;
use crate::strings::clone_list;
use crate::text::{chars_of, decimal, decimal_digits, push_all, push_str, to_string};
use vstd::prelude::*;

verus! {

/// What a search does before it asks the service.
#[derive(Clone, Copy, Debug, PartialEq, Eq, Structural)]
pub enum SearchPlan {
    /// Start an update in the background and search with what is retained.
    StartBackgroundIndex,
    /// Wait a number of seconds drawn from this range, then search.
    Wait(u64, u64),
    /// Search at once.
    Proceed,
}

/// A search, ready to send.
pub struct SearchRequest {
    pub url: String,
    pub authorization: String,
    pub query: String,
    /// The retained addresses of the project, all of them.
    pub blob_names: Vec<String>,
}

/// The plan for a project in `state` under the wait range `smart_wait`.
pub open spec fn search_plan(state: InitialIndexState, smart_wait: Option<(u64, u64)>) -> SearchPlan {
    match state {
        InitialIndexState::Missing | InitialIndexState::Idle | InitialIndexState::Failed =>
            SearchPlan::StartBackgroundIndex,
        InitialIndexState::Indexing => match smart_wait {
            Some((least, most)) => SearchPlan::Wait(least, most),
            None => SearchPlan::Proceed,
        },
        InitialIndexState::Synced => SearchPlan::Proceed,
    }
}

/// The error that a search with `config` against `retained` ends with before
/// anything is sent, if any.
pub open spec fn search_error(config: AcemcpConfig, retained: Seq<Seq<char>>) -> Option<IndexError> {
    if config.base_url is None {
        Some(IndexError::MissingBaseUrl)
    } else if config.token is None {
        Some(IndexError::MissingToken)
    } else if retained.len() == 0 {
        Some(IndexError::NotIndexed)
    } else {
        None
    }
}

/// The note on an update started in the background.
pub open spec fn background_hint_text() -> Seq<char> {
    "\n\n💡 提示：当前项目索引尚未完全初始化，已在后台启动索引，稍后搜索结果会更完整。"@
}

/// The note on a wait of `secs` seconds.
pub open spec fn wait_hint_text(secs: u64) -> Seq<char> {
    "\n\n💡 提示：检测到索引正在进行中，已等待 "@ + decimal(secs as nat) + " 秒以获取更完整的搜索结果。"@
}

/// `fastrand::u64` on the range `least..=most`, which must not be empty.
/// Believed of it: the number lies in the range. Which one it is, is left
/// open.
#[verifier::external_body]
fn random_u64(least: u64, most: u64) -> (n: u64)
    requires
        least <= most,
    ensures
        least <= n <= most,
{
    fastrand::u64(least..=most)
}

/// What a search does first: an update is started in the background for a
/// project that is missing, idle or failed; an update under way is waited
/// for where a wait range is set; else the search goes ahead.
pub fn plan_search(state: InitialIndexState, smart_wait: Option<(u64, u64)>) -> (plan: SearchPlan)
    ensures
        plan == search_plan(state, smart_wait),
{
    match state {
        InitialIndexState::Missing | InitialIndexState::Idle | InitialIndexState::Failed =>
            SearchPlan::StartBackgroundIndex,
        InitialIndexState::Indexing => match smart_wait {
            Some((least, most)) => SearchPlan::Wait(least, most),
            None => SearchPlan::Proceed,
        },
        InitialIndexState::Synced => SearchPlan::Proceed,
    }
}

/// Whether a project in `state` is to be indexed in the background.
pub fn needs_background_index(state: InitialIndexState) -> (r: bool)
    ensures
        r == (search_plan(state, None) == SearchPlan::StartBackgroundIndex),
{
    match state {
        InitialIndexState::Missing | InitialIndexState::Idle | InitialIndexState::Failed => true,
        InitialIndexState::Synced | InitialIndexState::Indexing => false,
    }
}

/// The seconds to wait for an update under way: some number from `least` to
/// `most`.
pub fn draw_smart_wait(least: u64, most: u64) -> (secs: u64)
    requires
        least <= most,
    ensures
        least <= secs <= most,
{
    random_u64(least, most)
}

/// Makes the search for `query` ready. A project without retained addresses
/// cannot be searched.
pub fn prepare_search(config: &AcemcpConfig, retained: &Vec<String>, query: &str) -> (r: Result<
    SearchRequest,
    IndexError,
>)
    ensures
        match r {
            Err(e) => search_error(*config, retained.deep_view()) == Some(e),
            Ok(request) => {
                &&& search_error(*config, retained.deep_view()) is None
                &&& request.url@ == config.base_url->0@ + "/agents/codebase-retrieval"@
                &&& request.authorization@ == "Bearer "@ + config.token->0@
                &&& request.query@ == query@
                &&& request.blob_names.deep_view() == retained.deep_view()
            },
        },
{
    let base_url = match &config.base_url {
        Some(u) => u,
        None => {
            return Err(IndexError::MissingBaseUrl);
        },
    };
    let token = match &config.token {
        Some(t) => t,
        None => {
            return Err(IndexError::MissingToken);
        },
    };
    if retained.len() == 0 {
        return Err(IndexError::NotIndexed);
    }
    Ok(
        SearchRequest {
            url: search_url(base_url.as_str()),
            authorization: bearer(token.as_str()),
            query: query.to_owned(),
            blob_names: clone_list(retained),
        },
    )
}

/// The note that goes with `plan`: on the update started, or on the `waited`
/// seconds; none for a search that went ahead.
pub fn search_hint(plan: SearchPlan, waited: u64) -> (hint: String)
    ensures
        hint@ == match plan {
            SearchPlan::StartBackgroundIndex => background_hint_text(),
            SearchPlan::Wait(_, _) => wait_hint_text(waited),
            SearchPlan::Proceed => Seq::<char>::empty(),
        },
{
    match plan {
        SearchPlan::StartBackgroundIndex => {
            "\n\n💡 提示：当前项目索引尚未完全初始化，已在后台启动索引，稍后搜索结果会更完整。".to_owned()
        },
        SearchPlan::Wait(_, _) => {
            let mut h = chars_of("\n\n💡 提示：检测到索引正在进行中，已等待 ");
            let digits = decimal_digits(waited);
            push_all(&mut h, &digits);
            push_str(&mut h, " 秒以获取更完整的搜索结果。");
            to_string(&h)
        },
        SearchPlan::Proceed => String::new(),
    }
}

/// What the caller reads: the text of the search, then the note.
pub fn search_reply(text: &str, hint: &str) -> (reply: String)
    ensures
        reply@ == text@ + hint@,
{
    let mut r = chars_of(text);
    push_str(&mut r, hint);
    to_string(&r)
}

/// What the caller reads where the search failed with `error`.
pub fn search_failure_reply(error: &str) -> (reply: String)
    ensures
        reply@ == "Acemcp搜索失败: "@ + error@,
{
    let mut r = chars_of("Acemcp搜索失败: ");
    push_str(&mut r, error);
    to_string(&r)
}

} // verus!
