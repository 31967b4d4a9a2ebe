//! Names and options as skills and the command line spell them.

use crate::text::{
    ascii_lower, chars_between, chars_of, string_of, to_ascii_lower, to_string, trim, trimmed,
};
use crate::uiux::is_ascii_alnum;
use vstd::prelude::*;

verus! {

/// White space of ASCII.
pub open spec fn is_ascii_space(c: char) -> bool {
    c == ' ' || c == '\t' || c == '\n' || c == '\x0C' || c == '\r'
}

/// The first `n` characters of `name` as a tool name spells them: ASCII
/// letters in lower case and digits stay, `-`, `_` and ASCII white space
/// become `-`, everything else is left out.
pub open spec fn skill_chars(name: Seq<char>, n: int) -> Seq<char>
    decreases n,
{
    if n <= 0 {
        Seq::empty()
    } else {
        let c = name[n - 1];
        if is_ascii_alnum(c) {
            skill_chars(name, n - 1).push(ascii_lower(c))
        } else if c == '-' || c == '_' || is_ascii_space(c) {
            skill_chars(name, n - 1).push('-')
        } else {
            skill_chars(name, n - 1)
        }
    }
}

/// `s` stands between two `"` or between two `'`.
pub open spec fn is_quoted(s: Seq<char>) -> bool {
    s.len() > 0 && ((s.first() == '"' && s.last() == '"') || (s.first() == '\'' && s.last()
        == '\''))
}

/// The parts of the first `n` characters of `raw` that a comma has ended,
/// trimmed, without the empty ones; and where the part that is still open
/// begins.
pub open spec fn comma_parts(raw: Seq<char>, n: int) -> (Seq<Seq<char>>, int)
    decreases n,
{
    if n <= 0 {
        (Seq::empty(), 0)
    } else {
        let (done, start) = comma_parts(raw, n - 1);
        if raw[n - 1] == ',' {
            let part = trimmed(raw.subrange(start, n - 1));
            if part.len() > 0 {
                (done.push(part), n)
            } else {
                (done, n)
            }
        } else {
            (done, start)
        }
    }
}

/// The options of `raw`: its parts between commas, trimmed, without the
/// empty ones.
pub open spec fn options_of(raw: Seq<char>) -> Seq<Seq<char>> {
    let (done, start) = comma_parts(raw, raw.len() as int);
    let part = trimmed(raw.subrange(start, raw.len() as int));
    if part.len() > 0 {
        done.push(part)
    } else {
        done
    }
}

/// The name of a skill as a tool name: lower case and `-`; `skill` where
/// nothing is left of the name.
pub fn normalize_skill_name(name: &str) -> (out: String)
    ensures
        out@ == if skill_chars(name@, name@.len() as int).len() == 0 {
            "skill"@
        } else {
            skill_chars(name@, name@.len() as int)
        },
{
    let cs = chars_of(name);
    let mut out: Vec<char> = Vec::new();
    let mut i: usize = 0;
    while i < cs.len()
        invariant
            i <= cs@.len(),
            cs@ == name@,
            out@ == skill_chars(name@, i as int),
        decreases cs.len() - i,
    {
        let ch = cs[i];
        if ('0' <= ch && ch <= '9') || ('a' <= ch && ch <= 'z') || ('A' <= ch && ch <= 'Z') {
            out.push(to_ascii_lower(ch));
        } else if ch == '-' || ch == '_' {
            out.push('-');
        } else if ch == ' ' || ch == '\t' || ch == '\n' || ch == '\x0C' || ch == '\r' {
            out.push('-');
        }
        i = i + 1;
    }
    if out.len() == 0 {
        "skill".to_owned()
    } else {
        to_string(&out)
    }
}

/// `input` trimmed, and without the pair of quotes around it, if there is
/// one. A lone quote is no pair.
pub fn strip_quotes(input: &str) -> (out: String)
    requires
        !(trimmed(input@).len() == 1 && is_quoted(trimmed(input@))),
    ensures
        out@ == if is_quoted(trimmed(input@)) {
            trimmed(input@).subrange(1, trimmed(input@).len() - 1)
        } else {
            trimmed(input@)
        },
{
    let s = trim(&chars_of(input));
    let n = s.len();
    if n > 0 && ((s[0] == '"' && s[n - 1] == '"') || (s[0] == '\'' && s[n - 1] == '\'')) {
        string_of(&s, 1, n - 1)
    } else {
        to_string(&s)
    }
}

/// The options of `raw`: its parts between commas, trimmed, without the
/// empty ones.
pub fn split_cli_options(raw: &str) -> (out: Vec<String>)
    ensures
        out.deep_view() == options_of(raw@),
{
    let cs = chars_of(raw);
    let mut out: Vec<String> = Vec::new();
    let mut start: usize = 0;
    let mut i: usize = 0;
    proof {
        assert(out.deep_view() =~= Seq::<Seq<char>>::empty());
    }
    while i < cs.len()
        invariant
            start <= i <= cs@.len(),
            cs@ == raw@,
            (out.deep_view(), start as int) == comma_parts(raw@, i as int),
        decreases cs.len() - i,
    {
        if cs[i] == ',' {
            let ghost before = out.deep_view();
            let part = trim(&chars_between(&cs, start, i));
            if part.len() > 0 {
                out.push(to_string(&part));
                proof {
                    assert(out.deep_view() =~= before.push(part@));
                }
            }
            start = i + 1;
        }
        i = i + 1;
    }
    let ghost before = out.deep_view();
    let part = trim(&chars_between(&cs, start, i));
    if part.len() > 0 {
        out.push(to_string(&part));
        proof {
            assert(out.deep_view() =~= before.push(part@));
        }
    }
    out
}

} // verus!
