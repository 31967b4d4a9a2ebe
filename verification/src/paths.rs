//! Project paths and endpoint addresses in one spelling.
//!
//! A project key has no Windows extended-length prefix (`//?/` or `\\?\`) and
//! uses `/` between its segments. An endpoint address has a scheme and no `/`
//! at its end.

use crate::text::{
    chars_between, chars_of, push_all, replace_char, replaced, starts_with, string_of, to_string,
    trim, trimmed,
};
use vstd::prelude::*;

verus! {

/// `s` without the characters `c` at its end.
pub open spec fn without_trailing(s: Seq<char>, c: char) -> Seq<char>
    decreases s.len(),
{
    if s.len() > 0 && s.last() == c {
        without_trailing(s.drop_last(), c)
    } else {
        s
    }
}

/// `path` without an extended-length prefix.
pub open spec fn without_extended_prefix(path: Seq<char>) -> Seq<char> {
    if "//?/"@.is_prefix_of(path) {
        path.skip("//?/"@.len() as int)
    } else if "\\\\?\\"@.is_prefix_of(path) {
        path.skip("\\\\?\\"@.len() as int)
    } else {
        path
    }
}

/// The key of the project at `path`.
pub open spec fn project_key(path: Seq<char>) -> Seq<char> {
    replaced(without_extended_prefix(path), '\\', '/')
}

/// The endpoint address that `input` stands for.
pub open spec fn base_url(input: Seq<char>) -> Seq<char> {
    let t = trimmed(input);
    if "http://"@.is_prefix_of(t) || "https://"@.is_prefix_of(t) {
        without_trailing(t, '/')
    } else {
        without_trailing("http://"@ + t, '/')
    }
}

/// `path` is `root` or lies below it: `root` is a prefix of `path` that ends
/// where a segment of `path` ends.
pub open spec fn path_within(path: Seq<char>, root: Seq<char>) -> bool {
    &&& root.len() > 0
    &&& root.is_prefix_of(path)
    &&& (path.len() == root.len() || root.last() == '/' || path[root.len() as int] == '/')
}

/// Normalizes a project path: drops a leading `//?/` or `\\?\` and writes
/// `/` for every `\`.
pub fn normalize_project_path(path: &str) -> (out: String)
    ensures
        out@ == project_key(path@),
{
    let cs = chars_of(path);
    let slashes = chars_of("//?/");
    let backslashes = chars_of("\\\\?\\");
    let rest: Vec<char> = if starts_with(&cs, &slashes) {
        chars_between(&cs, slashes.len(), cs.len())
    } else if starts_with(&cs, &backslashes) {
        chars_between(&cs, backslashes.len(), cs.len())
    } else {
        cs
    };
    let out = replace_char(&rest, '\\', '/');
    to_string(&out)
}

/// Normalizes an endpoint address: trims it, puts `http://` in front where
/// it names no scheme, and drops every `/` at its end.
pub fn normalize_base_url(input: &str) -> (out: String)
    ensures
        out@ == base_url(input@),
{
    let cs = chars_of(input);
    let t = trim(&cs);
    let http = chars_of("http://");
    let https = chars_of("https://");
    let url: Vec<char> = if starts_with(&t, &http) || starts_with(&t, &https) {
        t
    } else {
        let mut u = chars_of("http://");
        push_all(&mut u, &t);
        u
    };
    let ghost full = url@;
    let mut end: usize = url.len();
    proof {
        assert(full.take(full.len() as int) =~= full);
    }
    while end > 0 && url[end - 1] == '/'
        invariant
            end <= url.len(),
            url@ == full,
            without_trailing(full, '/') == without_trailing(full.take(end as int), '/'),
        decreases end,
    {
        proof {
            assert(full.take(end as int).drop_last() =~= full.take(end as int - 1));
        }
        end = end - 1;
    }
    proof {
        assert(full.take(full.len() as int) =~= full);
        assert(full.take(end as int) =~= full.subrange(0, end as int));
    }
    string_of(&url, 0, end)
}

/// Whether `path` is `root` or lies below it.
pub fn is_within(path: &str, root: &str) -> (r: bool)
    ensures
        r == path_within(path@, root@),
{
    let p = chars_of(path);
    let q = chars_of(root);
    if q.len() == 0 || !starts_with(&p, &q) {
        return false;
    }
    p.len() == q.len() || q[q.len() - 1] == '/' || p[q.len()] == '/'
}

} // verus!
