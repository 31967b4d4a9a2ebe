//! Words of a design question: how a text is cut into tokens, which further
//! tokens a question brings along, which field of design it belongs to, and
//! whether it asks for design advice at all.

use crate::lexicon::{
    domain_keywords, en_synonyms, field_hints, field_keywords, keyword_names, keyword_stopwords,
    named_keywords, stem_suffixes, stopwords, strong_triggers, suffix_list, synonyms,
    zh_domain_hints, zh_expansions, zh_to_en_expansions, zh_uiux_strong_triggers, Expansions,
};
use crate::scanner::{lowercase, to_lowercase};
use crate::strings::{is_smallest_distinct, list_contains, smallest_distinct, str_eq};
use crate::text::{
    chars_of, contains, has_substring, is_space, is_whitespace, push_str, string_of, to_string,
};
use regex::Regex;
use vstd::prelude::*;
use vstd::utf8::encode_utf8;

verus! {

/// Tokens that a question can bring along, at most.
pub const QUERY_EXPANSION_MAX_TOKENS: usize = 32;

/// `regex::Regex`: a compiled regular expression.
#[verifier::external_type_specification]
#[verifier::external_body]
pub struct ExRegex(Regex);

/// `regex::Error`: why a pattern did not compile.
#[verifier::external_type_specification]
#[verifier::external_body]
pub struct ExRegexError(regex::Error);

/// Whether `pattern` compiles as a regular expression.
pub uninterp spec fn regex_compiles(pattern: Seq<char>) -> bool;

/// The pattern that a regular expression was compiled from, as
/// `Regex::as_str` gives it.
pub uninterp spec fn regex_source(re: Regex) -> Seq<char>;

/// `text` with every match of `pattern` replaced by `with`.
pub uninterp spec fn regex_replaced(pattern: Seq<char>, text: Seq<char>, with: Seq<char>) -> Seq<
    char,
>;

/// Whether a question asks for design advice.
pub struct SuggestResult {
    pub should_suggest: bool,
    /// How many keywords matched.
    pub score: usize,
    /// The keywords that matched, in ascending order, each once.
    pub matched_keywords: Vec<String>,
}

/// The pattern of what is neither a word character nor white space.
pub open spec fn punctuation_pattern() -> Seq<char> {
    "[^\\w\\s]"@
}

/// `text` with a space for each character that is neither a word character
/// nor white space.
pub open spec fn without_punctuation(text: Seq<char>) -> Seq<char> {
    if regex_compiles(punctuation_pattern()) {
        regex_replaced(punctuation_pattern(), text, " "@)
    } else {
        text
    }
}

/// The words among the first `n` characters of `s` that have ended, and the
/// word that is still open. A character belongs to a word where `keep` holds
/// of it, and `change` says what it is kept as.
pub open spec fn scan_words(
    s: Seq<char>,
    keep: spec_fn(char) -> bool,
    change: spec_fn(char) -> char,
    n: int,
) -> (Seq<Seq<char>>, Seq<char>)
    decreases n,
{
    if n <= 0 {
        (Seq::empty(), Seq::empty())
    } else {
        let (done, open) = scan_words(s, keep, change, n - 1);
        if keep(s[n - 1]) {
            (done, open.push(change(s[n - 1])))
        } else if open.len() > 0 {
            (done.push(open), Seq::empty())
        } else {
            (done, open)
        }
    }
}

/// The words of `s`: its longest stretches of characters of which `keep`
/// holds, each character as `change` gives it.
pub open spec fn words_by(s: Seq<char>, keep: spec_fn(char) -> bool, change: spec_fn(char) -> char) -> Seq<
    Seq<char>,
> {
    let (done, open) = scan_words(s, keep, change, s.len() as int);
    if open.len() > 0 {
        done.push(open)
    } else {
        done
    }
}

/// The words of `s` between white space, as `str::split_whitespace` gives
/// them.
pub open spec fn words_of(s: Seq<char>) -> Seq<Seq<char>> {
    words_by(s, |c: char| !is_space(c), |c: char| c)
}

/// An ASCII letter or digit.
pub open spec fn is_ascii_alnum(c: char) -> bool {
    ('0' <= c <= '9') || ('a' <= c <= 'z') || ('A' <= c <= 'Z')
}

/// The stretches of ASCII letters and digits of `s`, in lower case.
pub open spec fn ascii_words_of(s: Seq<char>) -> Seq<Seq<char>> {
    words_by(s, |c: char| is_ascii_alnum(c), |c: char| crate::text::ascii_lower(c))
}

/// A token of two letters that counts all the same.
pub open spec fn allowed_short(token: Seq<char>) -> bool {
    token == "ui"@ || token == "ux"@ || token == "ai"@
}

/// The token is long enough: more than two bytes, or one of the short ones
/// that count (where `short_ok` holds).
pub open spec fn token_counts(token: Seq<char>, short_ok: bool) -> bool {
    encode_utf8(token).len() > 2 || (short_ok && allowed_short(token))
}

/// Those of the first `n` tokens that count.
pub open spec fn counting(tokens: Seq<Seq<char>>, short_ok: bool, n: int) -> Seq<Seq<char>>
    decreases n,
{
    if n <= 0 {
        Seq::empty()
    } else if token_counts(tokens[n - 1], short_ok) {
        counting(tokens, short_ok, n - 1).push(tokens[n - 1])
    } else {
        counting(tokens, short_ok, n - 1)
    }
}

/// The tokens of `text` for the question whether it asks for design advice.
pub open spec fn suggest_tokens(text: Seq<char>) -> Seq<Seq<char>> {
    let lower = lowercase(text);
    let plain = words_of(without_punctuation(lower));
    let ascii = ascii_words_of(lower);
    counting(plain, true, plain.len() as int) + counting(ascii, true, ascii.len() as int)
}

/// The tokens of `text` for ranking: its words in lower case, without
/// punctuation, those of more than two bytes.
pub open spec fn ranking_tokens(text: Seq<char>) -> Seq<Seq<char>> {
    let plain = words_of(without_punctuation(lowercase(text)));
    counting(plain, false, plain.len() as int)
}

/// `regex::Regex::new`: compiles `pattern`. Believed of it: whether it
/// succeeds depends on the pattern alone, and the expression that it gives
/// is the one of `pattern`.
#[verifier::external_body]
fn regex_new(pattern: &str) -> (r: Result<Regex, regex::Error>)
    ensures
        r is Ok <==> regex_compiles(pattern@),
        r matches Ok(re) ==> regex_source(re) == pattern@,
{
    Regex::new(pattern)
}

/// `regex::Regex::replace_all`: `text` with every match replaced by `with`.
/// Believed of it: the result depends on the pattern, the text and the
/// replacement alone.
#[verifier::external_body]
fn regex_replace_all(re: &Regex, text: &str, with: &str) -> (out: String)
    ensures
        out@ == regex_replaced(regex_source(*re), text@, with@),
{
    re.replace_all(text, with).into_owned()
}

/// `text` with a space for each character that is neither a word character
/// nor white space.
pub fn strip_punctuation(text: &str) -> (out: String)
    ensures
        out@ == without_punctuation(text@),
{
    match regex_new("[^\\w\\s]") {
        Ok(re) => regex_replace_all(&re, text, " "),
        Err(_) => text.to_owned(),
    }
}

/// The words of `s` between white space.
pub fn split_whitespace(s: &str) -> (out: Vec<String>)
    ensures
        out.deep_view() == words_of(s@),
{
    let ghost keep = |c: char| !is_space(c);
    let ghost change = |c: char| c;
    let cs = chars_of(s);
    let mut out: Vec<String> = Vec::new();
    let mut start: usize = 0;
    let mut i: usize = 0;
    while i < cs.len()
        invariant
            start <= i <= cs@.len(),
            cs@ == s@,
            keep == (|c: char| !is_space(c)),
            change == (|c: char| c),
            out.deep_view() == scan_words(s@, keep, change, i as int).0,
            cs@.subrange(start as int, i as int) == scan_words(s@, keep, change, i as int).1,
        decreases cs.len() - i,
    {
        let ghost before = out.deep_view();
        if is_whitespace(cs[i]) {
            if start < i {
                out.push(string_of(&cs, start, i));
                proof {
                    assert(out.deep_view() =~= before.push(cs@.subrange(start as int, i as int)));
                }
            }
            start = i + 1;
            proof {
                assert(cs@.subrange(i as int + 1, i as int + 1) =~= Seq::<char>::empty());
            }
        } else {
            proof {
                assert(cs@.subrange(start as int, i as int + 1) =~= cs@.subrange(
                    start as int,
                    i as int,
                ).push(cs@[i as int]));
            }
        }
        i = i + 1;
    }
    if start < i {
        let ghost before = out.deep_view();
        out.push(string_of(&cs, start, i));
        proof {
            assert(out.deep_view() =~= before.push(cs@.subrange(start as int, i as int)));
        }
    }
    out
}

/// Whether `c` is an ASCII letter or digit.
fn is_ascii_alphanumeric(c: char) -> (r: bool)
    ensures
        r == is_ascii_alnum(c),
{
    ('0' <= c && c <= '9') || ('a' <= c && c <= 'z') || ('A' <= c && c <= 'Z')
}

/// The stretches of ASCII letters and digits of `text`, in lower case: they
/// are found also where they touch other script.
pub fn extract_ascii_words(text: &str) -> (out: Vec<String>)
    ensures
        out.deep_view() == ascii_words_of(text@),
{
    let ghost keep = |c: char| is_ascii_alnum(c);
    let ghost change = |c: char| crate::text::ascii_lower(c);
    let cs = chars_of(text);
    let mut out: Vec<String> = Vec::new();
    let mut open: Vec<char> = Vec::new();
    let mut i: usize = 0;
    while i < cs.len()
        invariant
            i <= cs@.len(),
            cs@ == text@,
            keep == (|c: char| is_ascii_alnum(c)),
            change == (|c: char| crate::text::ascii_lower(c)),
            out.deep_view() == scan_words(text@, keep, change, i as int).0,
            open@ == scan_words(text@, keep, change, i as int).1,
        decreases cs.len() - i,
    {
        let ghost before = out.deep_view();
        let c = cs[i];
        if is_ascii_alphanumeric(c) {
            open.push(crate::text::to_ascii_lower(c));
        } else if open.len() > 0 {
            out.push(to_string(&open));
            proof {
                assert(out.deep_view() =~= before.push(open@));
            }
            open = Vec::new();
        }
        i = i + 1;
    }
    if open.len() > 0 {
        let ghost before = out.deep_view();
        out.push(to_string(&open));
        proof {
            assert(out.deep_view() =~= before.push(open@));
        }
    }
    out
}

/// Whether `token` is one of the tokens of two letters that count: `ui`,
/// `ux`, `ai`.
pub fn is_allowed_short_token(token: &str) -> (r: bool)
    ensures
        r == allowed_short(token@),
{
    str_eq(token, "ui") || str_eq(token, "ux") || str_eq(token, "ai")
}

/// Appends to `out` those of `tokens` that count.
fn push_counting(out: &mut Vec<String>, tokens: &Vec<String>, short_ok: bool)
    ensures
        final(out).deep_view() == old(out).deep_view() + counting(
            tokens.deep_view(),
            short_ok,
            tokens@.len() as int,
        ),
{
    let ghost start = out.deep_view();
    let mut i: usize = 0;
    proof {
        assert(start + Seq::<Seq<char>>::empty() =~= start);
    }
    while i < tokens.len()
        invariant
            i <= tokens@.len(),
            out.deep_view() == start + counting(tokens.deep_view(), short_ok, i as int),
        decreases tokens.len() - i,
    {
        let ghost before = out.deep_view();
        let t = &tokens[i];
        proof {
            assert(tokens.deep_view()[i as int] == t@);
        }
        if t.as_str().as_bytes().len() > 2 || (short_ok && is_allowed_short_token(t.as_str())) {
            out.push(t.clone());
            proof {
                assert(out.deep_view() =~= before.push(t@));
                assert(start + counting(tokens.deep_view(), short_ok, i as int).push(t@)
                    =~= before.push(t@));
            }
        }
        i = i + 1;
    }
}

/// The tokens of `text` for the question whether it asks for design advice:
/// its words in lower case without punctuation, then its stretches of ASCII
/// letters and digits; of both those of more than two bytes, and `ui`, `ux`,
/// `ai`.
pub fn tokenize_for_suggest(text: &str) -> (out: Vec<String>)
    ensures
        out.deep_view() == suggest_tokens(text@),
{
    let lower = to_lowercase(text);
    let cleaned = strip_punctuation(lower.as_str());
    let plain = split_whitespace(cleaned.as_str());
    let ascii = extract_ascii_words(lower.as_str());
    let mut out: Vec<String> = Vec::new();
    proof {
        assert(out.deep_view() =~= Seq::<Seq<char>>::empty());
    }
    push_counting(&mut out, &plain, true);
    push_counting(&mut out, &ascii, true);
    proof {
        let p = counting(plain.deep_view(), true, plain@.len() as int);
        assert(Seq::<Seq<char>>::empty() + p =~= p);
    }
    out
}

/// The tokens of `text` for ranking.
pub fn tokenize(text: &str) -> (out: Vec<String>)
    ensures
        out.deep_view() == ranking_tokens(text@),
{
    let lower = to_lowercase(text);
    let cleaned = strip_punctuation(lower.as_str());
    let plain = split_whitespace(cleaned.as_str());
    let mut out: Vec<String> = Vec::new();
    proof {
        assert(out.deep_view() =~= Seq::<Seq<char>>::empty());
    }
    push_counting(&mut out, &plain, false);
    proof {
        let p = counting(plain.deep_view(), false, plain@.len() as int);
        assert(Seq::<Seq<char>>::empty() + p =~= p);
    }
    out
}

/// The number of results to give: `value`, or `default` where there is none,
/// at least one and at most `cap` (which counts as one where it is zero).
pub fn cap_max_results(value: Option<u32>, cap: u32, default: u32) -> (out: usize)
    ensures
        out == ({
            let top: int = if cap < 1 {
                1
            } else {
                cap as int
            };
            let asked: int = match value {
                Some(v) => v as int,
                None => default as int,
            };
            let raw: int = if asked < 1 {
                1
            } else {
                asked
            };
            if raw < top {
                raw
            } else {
                top
            }
        }),
{
    let top: u32 = if cap < 1 {
        1
    } else {
        cap
    };
    let asked: u32 = match value {
        Some(v) => v,
        None => default,
    };
    let raw: u32 = if asked < 1 {
        1
    } else {
        asked
    };
    if raw < top {
        raw as usize
    } else {
        top as usize
    }
}

/// Every character of `s` is ASCII.
pub open spec fn all_ascii(s: Seq<char>) -> bool {
    forall|i: int| 0 <= i < s.len() ==> (#[trigger] s[i] as u32) < 128
}

/// The first of the endings `list[from..]` that `token` ends with and is
/// more than two characters longer than, taken off `token`.
pub open spec fn suffix_stem(token: Seq<char>, list: Seq<Seq<char>>, from: int) -> Option<Seq<char>>
    decreases list.len() - from,
{
    if from < 0 || from >= list.len() {
        None
    } else if list[from].is_suffix_of(token) && token.len() > list[from].len() + 2 {
        Some(token.take(token.len() - list[from].len()))
    } else {
        suffix_stem(token, list, from + 1)
    }
}

/// The stem of an English token of more than four letters: the token
/// without a usual ending, or without the `es` or `s` of a plural of more
/// than five letters (but not the `s` of `ss`).
pub open spec fn stem_of(token: Seq<char>) -> Option<Seq<char>> {
    if token.len() <= 4 || !all_ascii(token) {
        None
    } else {
        match suffix_stem(token, stem_suffixes(), 0) {
            Some(stem) => Some(stem),
            None => if "es"@.is_suffix_of(token) && token.len() > 5 {
                Some(token.take(token.len() - 2))
            } else if "s"@.is_suffix_of(token) && token.len() > 5 && !"ss"@.is_suffix_of(token) {
                Some(token.take(token.len() - 1))
            } else {
                None
            },
        }
    }
}

/// The tokens that the first `n` ASCII words bring along: `ui` and `uiux`
/// stand for design and interface, `ux` for usability and accessibility.
pub open spec fn signal_terms(words: Seq<Seq<char>>, n: int) -> Seq<Seq<char>>
    decreases n,
{
    if n <= 0 {
        Seq::empty()
    } else if words[n - 1] == "ui"@ || words[n - 1] == "uiux"@ {
        signal_terms(words, n - 1) + seq!["design"@, "interface"@]
    } else if words[n - 1] == "ux"@ {
        signal_terms(words, n - 1) + seq!["usability"@, "accessibility"@]
    } else {
        signal_terms(words, n - 1)
    }
}

/// The tokens of those of the first `n` phrases of `table` that occur in
/// `query`.
pub open spec fn phrase_terms(
    table: Seq<(Seq<char>, Seq<Seq<char>>)>,
    query: Seq<char>,
    n: int,
) -> Seq<Seq<char>>
    decreases n,
{
    if n <= 0 {
        Seq::empty()
    } else if has_substring(query, table[n - 1].0) {
        phrase_terms(table, query, n - 1) + table[n - 1].1
    } else {
        phrase_terms(table, query, n - 1)
    }
}

/// The tokens of those of the first `n` keys of `table` that equal `token`.
pub open spec fn synonym_terms(
    table: Seq<(Seq<char>, Seq<Seq<char>>)>,
    token: Seq<char>,
    n: int,
) -> Seq<Seq<char>>
    decreases n,
{
    if n <= 0 {
        Seq::empty()
    } else if table[n - 1].0 == token {
        synonym_terms(table, token, n - 1) + table[n - 1].1
    } else {
        synonym_terms(table, token, n - 1)
    }
}

/// What one token brings along: its synonyms and its stem.
pub open spec fn token_terms(token: Seq<char>) -> Seq<Seq<char>> {
    let same = synonym_terms(synonyms(), token, synonyms().len() as int);
    match stem_of(token) {
        Some(stem) => same.push(stem),
        None => same,
    }
}

/// What the first `n` tokens bring along.
pub open spec fn tokens_terms(tokens: Seq<Seq<char>>, n: int) -> Seq<Seq<char>>
    decreases n,
{
    if n <= 0 {
        Seq::empty()
    } else {
        tokens_terms(tokens, n - 1) + token_terms(tokens[n - 1])
    }
}

/// All that `query` brings along, before it is put in order.
pub open spec fn expansion_candidates(query: Seq<char>) -> Seq<Seq<char>> {
    let lower = lowercase(query);
    let words = ascii_words_of(lower);
    let tokens = ranking_tokens(lower);
    signal_terms(words, words.len() as int) + phrase_terms(
        zh_expansions(),
        query,
        zh_expansions().len() as int,
    ) + tokens_terms(tokens, tokens.len() as int)
}

/// Whether the hint `hint` occurs in the question: an ASCII hint in lower
/// case in the question in lower case, another hint as it is.
pub open spec fn hint_hits(hint: Seq<char>, query: Seq<char>) -> bool {
    if all_ascii(hint) {
        has_substring(lowercase(query), lowercase(hint))
    } else {
        has_substring(query, hint)
    }
}

/// How many of the first `n` hints are for `field` and occur in `query`.
pub open spec fn hint_score(
    hints: Seq<(Seq<char>, Seq<char>)>,
    field: Seq<char>,
    query: Seq<char>,
    n: int,
) -> nat
    decreases n,
{
    if n <= 0 {
        0
    } else if hints[n - 1].1 == field && hint_hits(hints[n - 1].0, query) {
        hint_score(hints, field, query, n - 1) + 1
    } else {
        hint_score(hints, field, query, n - 1)
    }
}

/// How many of the first `n` of `words`, in lower case, occur in `lower`.
pub open spec fn keyword_score(words: Seq<Seq<char>>, lower: Seq<char>, n: int) -> nat
    decreases n,
{
    if n <= 0 {
        0
    } else if has_substring(lower, lowercase(words[n - 1])) {
        keyword_score(words, lower, n - 1) + 1
    } else {
        keyword_score(words, lower, n - 1)
    }
}

/// The score of the field at position `i` of the keyword table.
pub open spec fn field_score(i: int, lower: Seq<char>) -> nat {
    keyword_score(field_keywords()[i].1, lower, field_keywords()[i].1.len() as int)
}

/// Some hint occurs in `query`.
pub open spec fn any_hint_hits(query: Seq<char>) -> bool {
    exists|i: int| 0 <= i < field_hints().len() && hint_hits(#[trigger] field_hints()[i].0, query)
}

/// Whether every character of `s` is ASCII.
pub fn is_all_ascii(s: &Vec<char>) -> (r: bool)
    ensures
        r == all_ascii(s@),
{
    let mut i: usize = 0;
    while i < s.len()
        invariant
            i <= s@.len(),
            forall|j: int| 0 <= j < i ==> (#[trigger] s@[j] as u32) < 128,
        decreases s.len() - i,
    {
        if (s[i] as u32) >= 128 {
            return false;
        }
        i = i + 1;
    }
    true
}

/// Whether `s` ends with `suffix`.
fn ends_with(s: &Vec<char>, suffix: &Vec<char>) -> (r: bool)
    ensures
        r == suffix@.is_suffix_of(s@),
{
    if suffix.len() > s.len() {
        return false;
    }
    let r = crate::text::occurs_at(s, s.len() - suffix.len(), suffix);
    proof {
        assert(s@.subrange(s@.len() - suffix@.len(), s@.len() - suffix@.len() + suffix@.len())
            =~= s@.subrange(s@.len() - suffix@.len(), s@.len() as int));
    }
    r
}

/// The stem of the English token `token`, if it has one. The rule is
/// cautious: short tokens and tokens of another script are left alone.
pub fn stem_en_token(token: &str) -> (out: Option<String>)
    ensures
        match out {
            Some(stem) => stem_of(token@) == Some(stem@),
            None => stem_of(token@) is None,
        },
{
    let t = chars_of(token);
    if t.len() <= 4 || !is_all_ascii(&t) {
        return None;
    }
    let list = suffix_list();
    let mut i: usize = 0;
    while i < list.len()
        invariant
            i <= list@.len(),
            t@ == token@,
            t@.len() > 4,
            all_ascii(t@),
            list.deep_view() == stem_suffixes(),
            suffix_stem(token@, stem_suffixes(), 0) == suffix_stem(
                token@,
                stem_suffixes(),
                i as int,
            ),
        decreases list.len() - i,
    {
        let suffix = chars_of(list[i].as_str());
        proof {
            assert(list.deep_view()[i as int] == list@[i as int]@);
        }
        if suffix.len() <= t.len() && ends_with(&t, &suffix) && t.len() - suffix.len() > 2 {
            proof {
                assert(t@.subrange(0, t@.len() - suffix@.len()) =~= t@.take(
                    t@.len() - suffix@.len(),
                ));
            }
            return Some(string_of(&t, 0, t.len() - suffix.len()));
        }
        i = i + 1;
    }
    let es = chars_of("es");
    let single = chars_of("s");
    let double = chars_of("ss");
    proof {
        reveal_strlit("es");
        reveal_strlit("s");
    }
    if ends_with(&t, &es) && t.len() > 5 {
        proof {
            assert(t@.subrange(0, t@.len() - 2) =~= t@.take(t@.len() - 2));
        }
        return Some(string_of(&t, 0, t.len() - 2));
    }
    if ends_with(&t, &single) && t.len() > 5 && !ends_with(&t, &double) {
        proof {
            assert(t@.subrange(0, t@.len() - 1) =~= t@.take(t@.len() - 1));
        }
        return Some(string_of(&t, 0, t.len() - 1));
    }
    None
}

/// Appends copies of the strings of `more` to `out`.
fn push_copies(out: &mut Vec<String>, more: &Vec<String>)
    ensures
        final(out).deep_view() == old(out).deep_view() + more.deep_view(),
{
    let ghost start = out.deep_view();
    let mut i: usize = 0;
    proof {
        assert(start + more.deep_view().take(0) =~= start);
    }
    while i < more.len()
        invariant
            i <= more@.len(),
            out.deep_view() == start + more.deep_view().take(i as int),
        decreases more.len() - i,
    {
        let ghost before = out.deep_view();
        out.push(more[i].clone());
        proof {
            assert(out.deep_view() =~= before.push(more@[i as int]@));
            assert(more.deep_view().take(i as int + 1) =~= more.deep_view().take(i as int).push(
                more@[i as int]@,
            ));
            assert(out.deep_view() =~= start + more.deep_view().take(i as int + 1));
        }
        i = i + 1;
    }
    proof {
        assert(more.deep_view().take(more@.len() as int) =~= more.deep_view());
    }
}

/// Appends to `out` what the ASCII words `words` bring along.
fn push_signal_terms(out: &mut Vec<String>, words: &Vec<String>)
    ensures
        final(out).deep_view() == old(out).deep_view() + signal_terms(
            words.deep_view(),
            words@.len() as int,
        ),
{
    let ghost start = out.deep_view();
    let ghost ws = words.deep_view();
    let mut i: usize = 0;
    proof {
        assert(start + Seq::<Seq<char>>::empty() =~= start);
    }
    while i < words.len()
        invariant
            i <= words@.len(),
            ws == words.deep_view(),
            out.deep_view() == start + signal_terms(ws, i as int),
        decreases words.len() - i,
    {
        let ghost before = out.deep_view();
        let w = words[i].as_str();
        proof {
            assert(ws[i as int] == w@);
        }
        if str_eq(w, "ui") || str_eq(w, "uiux") {
            out.push("design".to_owned());
            out.push("interface".to_owned());
            proof {
                assert(out.deep_view() =~= before + seq!["design"@, "interface"@]);
                assert(out.deep_view() =~= start + (signal_terms(ws, i as int) + seq![
                    "design"@,
                    "interface"@,
                ]));
            }
        } else if str_eq(w, "ux") {
            out.push("usability".to_owned());
            out.push("accessibility".to_owned());
            proof {
                assert(out.deep_view() =~= before + seq!["usability"@, "accessibility"@]);
                assert(out.deep_view() =~= start + (signal_terms(ws, i as int) + seq![
                    "usability"@,
                    "accessibility"@,
                ]));
            }
        }
        i = i + 1;
    }
}

/// Appends to `out` the tokens of the phrases of `table` that occur in
/// `query`.
fn push_phrase_terms(out: &mut Vec<String>, table: &Expansions, query: &str)
    ensures
        final(out).deep_view() == old(out).deep_view() + phrase_terms(
            table.deep_view(),
            query@,
            table@.len() as int,
        ),
{
    let ghost start = out.deep_view();
    let ghost tb = table.deep_view();
    let q = chars_of(query);
    let mut i: usize = 0;
    proof {
        assert(start + Seq::<Seq<char>>::empty() =~= start);
    }
    while i < table.len()
        invariant
            i <= table@.len(),
            tb == table.deep_view(),
            q@ == query@,
            out.deep_view() == start + phrase_terms(tb, query@, i as int),
        decreases table.len() - i,
    {
        let phrase = chars_of(table[i].0.as_str());
        proof {
            assert(tb[i as int] == (table@[i as int].0@, table@[i as int].1.deep_view()));
        }
        if contains(&q, &phrase) {
            push_copies(out, &table[i].1);
            proof {
                assert(out.deep_view() =~= start + (phrase_terms(tb, query@, i as int)
                    + tb[i as int].1));
            }
        }
        i = i + 1;
    }
}

/// Appends to `out` the tokens of the keys of `table` that equal `token`.
fn push_synonym_terms(out: &mut Vec<String>, table: &Expansions, token: &str)
    ensures
        final(out).deep_view() == old(out).deep_view() + synonym_terms(
            table.deep_view(),
            token@,
            table@.len() as int,
        ),
{
    let ghost start = out.deep_view();
    let ghost tb = table.deep_view();
    let mut i: usize = 0;
    proof {
        assert(start + Seq::<Seq<char>>::empty() =~= start);
    }
    while i < table.len()
        invariant
            i <= table@.len(),
            tb == table.deep_view(),
            out.deep_view() == start + synonym_terms(tb, token@, i as int),
        decreases table.len() - i,
    {
        proof {
            assert(tb[i as int] == (table@[i as int].0@, table@[i as int].1.deep_view()));
        }
        if str_eq(table[i].0.as_str(), token) {
            push_copies(out, &table[i].1);
            proof {
                assert(out.deep_view() =~= start + (synonym_terms(tb, token@, i as int)
                    + tb[i as int].1));
            }
        }
        i = i + 1;
    }
}

/// The tokens that `query` brings along: what its ASCII words, the Chinese
/// phrases in it and its ranking tokens stand for, in ascending order, each
/// once, and no more than 32.
pub fn collect_query_expansion(query: &str) -> (out: Vec<String>)
    ensures
        is_smallest_distinct(
            out.deep_view(),
            expansion_candidates(query@),
            QUERY_EXPANSION_MAX_TOKENS as nat,
        ),
{
    let lower = to_lowercase(query);
    let mut found: Vec<String> = Vec::new();
    proof {
        assert(found.deep_view() =~= Seq::<Seq<char>>::empty());
    }
    let words = extract_ascii_words(lower.as_str());
    push_signal_terms(&mut found, &words);
    proof {
        let t = signal_terms(words.deep_view(), words@.len() as int);
        assert(Seq::<Seq<char>>::empty() + t =~= t);
    }
    let phrases = zh_to_en_expansions();
    push_phrase_terms(&mut found, &phrases, query);
    let ghost second = found.deep_view();
    let same = en_synonyms();
    let tokens = tokenize(lower.as_str());
    let ghost ts = tokens.deep_view();
    let mut i: usize = 0;
    proof {
        assert(second + Seq::<Seq<char>>::empty() =~= second);
    }
    while i < tokens.len()
        invariant
            i <= tokens@.len(),
            ts == tokens.deep_view(),
            same.deep_view() == synonyms(),
            found.deep_view() == second + tokens_terms(ts, i as int),
        decreases tokens.len() - i,
    {
        let ghost before = found.deep_view();
        let token = tokens[i].as_str();
        proof {
            assert(ts[i as int] == token@);
        }
        push_synonym_terms(&mut found, &same, token);
        let ghost middle = found.deep_view();
        match stem_en_token(token) {
            Some(stem) => {
                found.push(stem);
                proof {
                    assert(found.deep_view() =~= middle.push(stem@));
                }
            },
            None => {},
        }
        proof {
            assert(found.deep_view() =~= before + token_terms(token@));
            assert(found.deep_view() =~= second + (tokens_terms(ts, i as int) + token_terms(
                token@,
            )));
        }
        i = i + 1;
    }
    smallest_distinct(&found, QUERY_EXPANSION_MAX_TOKENS)
}

/// The question for ranking: `query`, and behind it what it brings along.
pub fn expand_query_for_bm25(query: &str) -> (out: String)
    ensures
        exists|extra: Seq<Seq<char>>|
            {
                &&& is_smallest_distinct(
                    extra,
                    expansion_candidates(query@),
                    QUERY_EXPANSION_MAX_TOKENS as nat,
                )
                &&& out@ == query@ + spaced(extra, extra.len() as int)
            },
{
    let extra = collect_query_expansion(query);
    let mut q = chars_of(query);
    let mut i: usize = 0;
    while i < extra.len()
        invariant
            i <= extra@.len(),
            q@ == query@ + spaced(extra.deep_view(), i as int),
        decreases extra.len() - i,
    {
        push_str(&mut q, " ");
        push_str(&mut q, extra[i].as_str());
        proof {
            assert(extra.deep_view()[i as int] == extra@[i as int]@);
            assert(q@ =~= query@ + (spaced(extra.deep_view(), i as int) + " "@
                + extra@[i as int]@));
        }
        i = i + 1;
    }
    to_string(&q)
}

/// The first `n` of `tokens`, a space before each.
pub open spec fn spaced(tokens: Seq<Seq<char>>, n: int) -> Seq<char>
    decreases n,
{
    if n <= 0 {
        Seq::empty()
    } else {
        spaced(tokens, n - 1) + " "@ + tokens[n - 1]
    }
}

/// Those of the first `n` of `tokens` that are among `keys`.
pub open spec fn known_tokens(tokens: Seq<Seq<char>>, keys: Seq<Seq<char>>, n: int) -> Seq<
    Seq<char>,
>
    decreases n,
{
    if n <= 0 {
        Seq::empty()
    } else if keys.contains(tokens[n - 1]) {
        known_tokens(tokens, keys, n - 1).push(tokens[n - 1])
    } else {
        known_tokens(tokens, keys, n - 1)
    }
}

/// Those of the first `n` of `phrases` that occur in `text`.
pub open spec fn phrases_in(phrases: Seq<Seq<char>>, text: Seq<char>, n: int) -> Seq<Seq<char>>
    decreases n,
{
    if n <= 0 {
        Seq::empty()
    } else if has_substring(text, phrases[n - 1]) {
        phrases_in(phrases, text, n - 1).push(phrases[n - 1])
    } else {
        phrases_in(phrases, text, n - 1)
    }
}

/// What speaks for design advice in `text`: its tokens that are keywords,
/// the strong phrases in it, and those of `extra`, the tokens that it brings
/// along, that are keywords.
pub open spec fn matched_candidates(
    text: Seq<char>,
    extra: Seq<Seq<char>>,
    keys: Seq<Seq<char>>,
) -> Seq<Seq<char>> {
    let tokens = suggest_tokens(text);
    known_tokens(tokens, keys, tokens.len() as int) + phrases_in(
        strong_triggers(),
        text,
        strong_triggers().len() as int,
    ) + known_tokens(extra, keys, extra.len() as int)
}

/// The keywords among the first `n` words: those of more than two bytes (of
/// two or more where `short_ok` holds) that are no stopwords.
pub open spec fn keywords_among(words: Seq<Seq<char>>, short_ok: bool, n: int) -> Seq<Seq<char>>
    decreases n,
{
    if n <= 0 {
        Seq::empty()
    } else {
        let w = words[n - 1];
        let long = if short_ok {
            encode_utf8(w).len() >= 2
        } else {
            encode_utf8(w).len() > 2
        };
        if long && !stopwords().contains(w) {
            keywords_among(words, short_ok, n - 1).push(w)
        } else {
            keywords_among(words, short_ok, n - 1)
        }
    }
}

/// The keywords of `text`.
pub open spec fn keywords_of(text: Seq<char>, short_ok: bool) -> Seq<Seq<char>> {
    let words = words_of(without_punctuation(lowercase(text)));
    keywords_among(words, short_ok, words.len() as int)
}

/// Appends to `out` those of `tokens` that are among `keys`.
fn push_known(out: &mut Vec<String>, tokens: &Vec<String>, keys: &Vec<String>)
    ensures
        final(out).deep_view() == old(out).deep_view() + known_tokens(
            tokens.deep_view(),
            keys.deep_view(),
            tokens@.len() as int,
        ),
{
    let ghost start = out.deep_view();
    let mut i: usize = 0;
    proof {
        assert(start + Seq::<Seq<char>>::empty() =~= start);
    }
    while i < tokens.len()
        invariant
            i <= tokens@.len(),
            out.deep_view() == start + known_tokens(
                tokens.deep_view(),
                keys.deep_view(),
                i as int,
            ),
        decreases tokens.len() - i,
    {
        let ghost before = out.deep_view();
        proof {
            assert(tokens.deep_view()[i as int] == tokens@[i as int]@);
        }
        if list_contains(keys, &tokens[i]) {
            out.push(tokens[i].clone());
            proof {
                assert(out.deep_view() =~= before.push(tokens@[i as int]@));
                assert(out.deep_view() =~= start + known_tokens(
                    tokens.deep_view(),
                    keys.deep_view(),
                    i as int,
                ).push(tokens@[i as int]@));
            }
        }
        i = i + 1;
    }
}

/// Tells whether `text` asks for design advice: whether a token of it, or a
/// token that it brings along, is one of the keywords `keyword_set`, or a
/// strong phrase occurs in it. The keywords that matched come in ascending
/// order, each once.
pub fn suggest(text: &str, keyword_set: &Vec<String>) -> (out: SuggestResult)
    ensures
        out.should_suggest == (out.score > 0),
        out.score == out.matched_keywords@.len(),
        exists|extra: Seq<Seq<char>>|
            {
                &&& is_smallest_distinct(
                    extra,
                    expansion_candidates(text@),
                    QUERY_EXPANSION_MAX_TOKENS as nat,
                )
                &&& is_smallest_distinct(
                    out.matched_keywords.deep_view(),
                    matched_candidates(text@, extra, keyword_set.deep_view()),
                    usize::MAX as nat,
                )
            },
{
    let mut found: Vec<String> = Vec::new();
    proof {
        assert(found.deep_view() =~= Seq::<Seq<char>>::empty());
    }
    let tokens = tokenize_for_suggest(text);
    push_known(&mut found, &tokens, keyword_set);
    let ghost first = found.deep_view();
    proof {
        let k = known_tokens(tokens.deep_view(), keyword_set.deep_view(), tokens@.len() as int);
        assert(Seq::<Seq<char>>::empty() + k =~= k);
    }
    let triggers = zh_uiux_strong_triggers();
    let t = chars_of(text);
    let mut i: usize = 0;
    proof {
        assert(first + Seq::<Seq<char>>::empty() =~= first);
    }
    while i < triggers.len()
        invariant
            i <= triggers@.len(),
            t@ == text@,
            triggers.deep_view() == strong_triggers(),
            found.deep_view() == first + phrases_in(strong_triggers(), text@, i as int),
        decreases triggers.len() - i,
    {
        let ghost before = found.deep_view();
        let phrase = chars_of(triggers[i].as_str());
        proof {
            assert(triggers.deep_view()[i as int] == triggers@[i as int]@);
        }
        if contains(&t, &phrase) {
            found.push(triggers[i].clone());
            proof {
                assert(found.deep_view() =~= before.push(triggers@[i as int]@));
                assert(found.deep_view() =~= first + phrases_in(
                    strong_triggers(),
                    text@,
                    i as int,
                ).push(triggers@[i as int]@));
            }
        }
        i = i + 1;
    }
    let extra = collect_query_expansion(text);
    push_known(&mut found, &extra, keyword_set);
    let matched_keywords = smallest_distinct(&found, usize::MAX);
    let score = matched_keywords.len();
    SuggestResult { should_suggest: score > 0, score, matched_keywords }
}

/// A keyword of one of `texts`.
pub open spec fn any_keyword(texts: Seq<Seq<char>>, short_ok: bool, k: Seq<char>) -> bool {
    exists|i: int| 0 <= i < texts.len() && keywords_of(#[trigger] texts[i], short_ok).contains(k)
}

/// Puts the keywords of `text` into `set`, each once: its words in lower
/// case without punctuation, those of more than two bytes that are no
/// stopwords.
pub fn add_keywords(text: &str, set: &mut Vec<String>)
    requires
        old(set).deep_view().no_duplicates(),
    ensures
        final(set).deep_view().no_duplicates(),
        forall|k: Seq<char>| #[trigger]
            final(set).deep_view().contains(k) <==> old(set).deep_view().contains(k)
                || keywords_of(text@, false).contains(k),
{
    add_keywords_of(text, false, set);
}

/// Puts the keywords of `text` into `set`, each once, those of two bytes
/// too: names such as `nuxt-ui` bring `ui` along.
pub fn add_keywords_allow_short(text: &str, set: &mut Vec<String>)
    requires
        old(set).deep_view().no_duplicates(),
    ensures
        final(set).deep_view().no_duplicates(),
        forall|k: Seq<char>| #[trigger]
            final(set).deep_view().contains(k) <==> old(set).deep_view().contains(k)
                || keywords_of(text@, true).contains(k),
{
    add_keywords_of(text, true, set);
}

/// Puts the keywords of each of `texts` into `set`.
fn add_all_keywords(texts: &Vec<String>, short_ok: bool, set: &mut Vec<String>)
    requires
        old(set).deep_view().no_duplicates(),
    ensures
        final(set).deep_view().no_duplicates(),
        forall|k: Seq<char>| #[trigger]
            final(set).deep_view().contains(k) <==> old(set).deep_view().contains(k)
                || any_keyword(texts.deep_view(), short_ok, k),
{
    let ghost start = set.deep_view();
    let ghost ts = texts.deep_view();
    let mut i: usize = 0;
    while i < texts.len()
        invariant
            i <= texts@.len(),
            ts == texts.deep_view(),
            set.deep_view().no_duplicates(),
            forall|k: Seq<char>| #[trigger]
                set.deep_view().contains(k) <==> start.contains(k) || any_keyword(
                    ts.take(i as int),
                    short_ok,
                    k,
                ),
        decreases texts.len() - i,
    {
        proof {
            assert(ts[i as int] == texts@[i as int]@);
        }
        add_keywords_of(texts[i].as_str(), short_ok, set);
        proof {
            let seen = ts.take(i as int);
            let now = ts.take(i as int + 1);
            assert forall|k: Seq<char>| #[trigger]
                set.deep_view().contains(k) <==> start.contains(k) || any_keyword(
                    now,
                    short_ok,
                    k,
                ) by {
                if any_keyword(seen, short_ok, k) {
                    let j = choose|j: int|
                        0 <= j < seen.len() && keywords_of(#[trigger] seen[j], short_ok).contains(
                            k,
                        );
                    assert(now[j] == seen[j]);
                }
                if keywords_of(ts[i as int], short_ok).contains(k) {
                    assert(now[i as int] == ts[i as int]);
                }
                if any_keyword(now, short_ok, k) {
                    let j = choose|j: int|
                        0 <= j < now.len() && keywords_of(#[trigger] now[j], short_ok).contains(k);
                    if j < i {
                        assert(seen[j] == now[j]);
                    } else {
                        assert(now[j] == ts[i as int]);
                    }
                }
            }
        }
        i = i + 1;
    }
    proof {
        assert(ts.take(ts.len() as int) =~= ts);
    }
}

/// The keywords that make a text a question of design: the keywords of the
/// texts `column_values`, which come from the tables of the design search,
/// and those of the names of the stacks and fields and of the words that
/// always count, short ones too. Each keyword comes once.
pub fn build_keyword_set(column_values: &Vec<String>) -> (set: Vec<String>)
    ensures
        set.deep_view().no_duplicates(),
        forall|k: Seq<char>| #[trigger]
            set.deep_view().contains(k) <==> any_keyword(column_values.deep_view(), false, k)
                || any_keyword(named_keywords(), true, k),
{
    let mut set: Vec<String> = Vec::new();
    proof {
        assert(set.deep_view() =~= Seq::<Seq<char>>::empty());
    }
    add_all_keywords(column_values, false, &mut set);
    let names = keyword_names();
    add_all_keywords(&names, true, &mut set);
    set
}

/// Puts the keywords of `text` into `set`, each once: its words in lower
/// case without punctuation, those of more than two bytes (of two or more
/// where `short_ok` holds) that are no stopwords.
fn add_keywords_of(text: &str, short_ok: bool, set: &mut Vec<String>)
    requires
        old(set).deep_view().no_duplicates(),
    ensures
        final(set).deep_view().no_duplicates(),
        forall|k: Seq<char>| #[trigger]
            final(set).deep_view().contains(k) <==> old(set).deep_view().contains(k)
                || keywords_of(text@, short_ok).contains(k),
{
    let lower = to_lowercase(text);
    let cleaned = strip_punctuation(lower.as_str());
    let words = split_whitespace(cleaned.as_str());
    let stop = keyword_stopwords();
    let ghost ws = words.deep_view();
    let ghost start = set.deep_view();
    let mut i: usize = 0;
    while i < words.len()
        invariant
            i <= words@.len(),
            ws == words.deep_view(),
            stop.deep_view() == stopwords(),
            set.deep_view().no_duplicates(),
            forall|k: Seq<char>| #[trigger]
                set.deep_view().contains(k) <==> start.contains(k) || keywords_among(
                    ws,
                    short_ok,
                    i as int,
                ).contains(k),
        decreases words.len() - i,
    {
        let ghost before = set.deep_view();
        let ghost seen = keywords_among(ws, short_ok, i as int);
        let w = &words[i];
        proof {
            assert(ws[i as int] == w@);
        }
        let bytes = w.as_str().as_bytes().len();
        let long = if short_ok {
            bytes >= 2
        } else {
            bytes > 2
        };
        if long && !list_contains(&stop, w) {
            let ghost now = seen.push(w@);
            if !list_contains(set, w) {
                set.push(w.clone());
                proof {
                    let after = set.deep_view();
                    assert(after =~= before.push(w@));
                    assert forall|k: Seq<char>| #[trigger]
                        after.contains(k) <==> start.contains(k) || now.contains(k) by {
                        if after.contains(k) {
                            let x = choose|x: int| 0 <= x < after.len() && after[x] == k;
                            if x < before.len() {
                                assert(before.contains(k));
                                if seen.contains(k) {
                                    let y = choose|y: int| 0 <= y < seen.len() && seen[y] == k;
                                    assert(now[y] == k);
                                }
                            } else {
                                assert(now[now.len() - 1] == k);
                            }
                        }
                        if start.contains(k) {
                            assert(before.contains(k));
                            let x = choose|x: int| 0 <= x < before.len() && before[x] == k;
                            assert(after[x] == k);
                        }
                        if now.contains(k) {
                            let y = choose|y: int| 0 <= y < now.len() && now[y] == k;
                            if y < seen.len() {
                                assert(seen[y] == k);
                                assert(before.contains(k));
                                let x = choose|x: int| 0 <= x < before.len() && before[x] == k;
                                assert(after[x] == k);
                            } else {
                                assert(after[after.len() - 1] == k);
                            }
                        }
                    }
                }
            } else {
                proof {
                    assert forall|k: Seq<char>| #[trigger]
                        before.contains(k) <==> start.contains(k) || now.contains(k) by {
                        if seen.contains(k) {
                            let y = choose|y: int| 0 <= y < seen.len() && seen[y] == k;
                            assert(now[y] == k);
                        }
                        if now.contains(k) {
                            let y = choose|y: int| 0 <= y < now.len() && now[y] == k;
                            if y < seen.len() {
                                assert(seen[y] == k);
                            }
                        }
                    }
                }
            }
        }
        i = i + 1;
    }
}

/// Whether the hint `hint` occurs in the question.
fn hint_occurs(hint: &str, query: &Vec<char>, lower: &Vec<char>) -> (r: bool)
    ensures
        r == if all_ascii(hint@) {
            has_substring(lower@, lowercase(hint@))
        } else {
            has_substring(query@, hint@)
        },
{
    let h = chars_of(hint);
    if is_all_ascii(&h) {
        let lowered = to_lowercase(hint);
        contains(lower, &chars_of(lowered.as_str()))
    } else {
        contains(query, &h)
    }
}

/// How many of `words`, in lower case, occur in `lower`.
fn count_keywords(words: &Vec<String>, lower: &Vec<char>) -> (n: usize)
    ensures
        n == keyword_score(words.deep_view(), lower@, words@.len() as int),
{
    let mut n: usize = 0;
    let mut i: usize = 0;
    while i < words.len()
        invariant
            i <= words@.len(),
            n <= i,
            n == keyword_score(words.deep_view(), lower@, i as int),
        decreases words.len() - i,
    {
        proof {
            assert(words.deep_view()[i as int] == words@[i as int]@);
        }
        let word = to_lowercase(words[i].as_str());
        if contains(lower, &chars_of(word.as_str())) {
            n = n + 1;
        }
        i = i + 1;
    }
    n
}

/// The field of design that `query` belongs to. Where hints occur in it,
/// a field with the most hints; else the first field with the most of its
/// words in the question, and `style` where no word occurs.
pub fn detect_domain(query: &str) -> (field: String)
    ensures
        any_hint_hits(query@) ==> exists|i: int|
            {
                &&& 0 <= i < field_hints().len()
                &&& field@ == #[trigger] field_hints()[i].1
                &&& hint_score(field_hints(), field@, query@, field_hints().len() as int) > 0
                &&& forall|j: int|
                    0 <= j < field_hints().len() ==> hint_score(
                        field_hints(),
                        #[trigger] field_hints()[j].1,
                        query@,
                        field_hints().len() as int,
                    ) <= hint_score(field_hints(), field@, query@, field_hints().len() as int)
            },
        !any_hint_hits(query@) ==> {
            ||| (field@ == "style"@ && forall|j: int|
                0 <= j < field_keywords().len() ==> #[trigger] field_score(j, lowercase(query@))
                    == 0)
            ||| exists|i: int|
                {
                    &&& 0 <= i < field_keywords().len()
                    &&& field@ == #[trigger] field_keywords()[i].0
                    &&& field_score(i, lowercase(query@)) > 0
                    &&& forall|j: int|
                        0 <= j < field_keywords().len() ==> #[trigger] field_score(
                            j,
                            lowercase(query@),
                        ) <= field_score(i, lowercase(query@))
                    &&& forall|j: int|
                        0 <= j < i ==> #[trigger] field_score(j, lowercase(query@)) < field_score(
                            i,
                            lowercase(query@),
                        )
                }
        },
{
    let q = chars_of(query);
    let lowered = to_lowercase(query);
    let lower = chars_of(lowered.as_str());
    let hints = zh_domain_hints();
    let ghost hs = field_hints();
    let ghost total = hs.len() as int;
    let mut hit: Vec<bool> = Vec::new();
    let mut any = false;
    let mut i: usize = 0;
    while i < hints.len()
        invariant
            i <= hints@.len(),
            hs == field_hints(),
            hints.deep_view() == hs,
            q@ == query@,
            lower@ == lowercase(query@),
            hit@.len() == i,
            forall|j: int| 0 <= j < i ==> hit@[j] == hint_hits(#[trigger] hs[j].0, query@),
            any ==> exists|j: int| 0 <= j < i && #[trigger] hit@[j],
            !any ==> forall|j: int| 0 <= j < i ==> !#[trigger] hit@[j],
        decreases hints.len() - i,
    {
        proof {
            assert(hs[i as int] == (hints@[i as int].0@, hints@[i as int].1@));
        }
        let h = hint_occurs(hints[i].0.as_str(), &q, &lower);
        let ghost before = hit@;
        hit.push(h);
        proof {
            if any {
                let j = choose|j: int| 0 <= j < i && #[trigger] before[j];
                assert(hit@[j]);
            }
        }
        if h {
            any = true;
            proof {
                assert(hit@[i as int]);
            }
        }
        i = i + 1;
    }
    proof {
        if any {
            let j = choose|j: int| 0 <= j < hit@.len() && #[trigger] hit@[j];
            assert(hint_hits(hs[j].0, query@));
            assert(any_hint_hits(query@));
        } else {
            assert forall|j: int| 0 <= j < hs.len() implies !hint_hits(
                #[trigger] hs[j].0,
                query@,
            ) by {
                assert(!hit@[j]);
            }
        }
    }
    if any {
        let mut best: usize = 0;
        let mut best_score: usize = 0;
        let mut a: usize = 0;
        while a < hints.len()
            invariant
                a <= hints@.len(),
                hs == field_hints(),
                total == hs.len(),
                hints.deep_view() == hs,
                hit@.len() == hints@.len(),
                forall|j: int|
                    0 <= j < hit@.len() ==> hit@[j] == hint_hits(#[trigger] hs[j].0, query@),
                best < hints@.len(),
                best_score == 0 || best_score == hint_score(hs, hs[best as int].1, query@, total),
                forall|j: int|
                    0 <= j < a ==> hint_score(hs, #[trigger] hs[j].1, query@, total)
                        <= best_score,
            decreases hints.len() - a,
        {
            let mut score: usize = 0;
            let mut b: usize = 0;
            while b < hints.len()
                invariant
                    b <= hints@.len(),
                    a < hints@.len(),
                    hs == field_hints(),
                    hints.deep_view() == hs,
                    hit@.len() == hints@.len(),
                    forall|j: int|
                        0 <= j < hit@.len() ==> hit@[j] == hint_hits(#[trigger] hs[j].0, query@),
                    score <= b,
                    score == hint_score(hs, hs[a as int].1, query@, b as int),
                decreases hints.len() - b,
            {
                proof {
                    assert(hs[b as int] == (hints@[b as int].0@, hints@[b as int].1@));
                    assert(hs[a as int] == (hints@[a as int].0@, hints@[a as int].1@));
                }
                if hit[b] && hints[b].1 == hints[a].1 {
                    score = score + 1;
                }
                b = b + 1;
            }
            if score > best_score {
                best = a;
                best_score = score;
            }
            a = a + 1;
        }
        proof {
            assert(any_hint_hits(query@));
            let w = choose|j: int| 0 <= j < total && hint_hits(#[trigger] hs[j].0, query@);
            lemma_hint_score_positive(hs, hs[w].1, query@, total, w);
            assert(hint_score(hs, hs[w].1, query@, total) <= best_score);
            assert(hs[best as int] == (hints@[best as int].0@, hints@[best as int].1@));
        }
        return hints[best].1.clone();
    }
    proof {
        assert(!any_hint_hits(query@));
    }
    let fields = domain_keywords();
    let ghost fs = field_keywords();
    let mut best: usize = 0;
    let mut best_score: usize = 0;
    let mut k: usize = 0;
    while k < fields.len()
        invariant
            k <= fields@.len(),
            fs == field_keywords(),
            fields.deep_view() == fs,
            lower@ == lowercase(query@),
            best_score == 0 || (best < k && best_score == field_score(best as int, lower@)),
            forall|j: int| 0 <= j < k ==> #[trigger] field_score(j, lower@) <= best_score,
            best_score > 0 ==> forall|j: int|
                0 <= j < best ==> #[trigger] field_score(j, lower@) < best_score,
        decreases fields.len() - k,
    {
        proof {
            assert(fs[k as int] == (fields@[k as int].0@, fields@[k as int].1.deep_view()));
        }
        let score = count_keywords(&fields[k].1, &lower);
        if score > best_score {
            best = k;
            best_score = score;
        }
        k = k + 1;
    }
    if best_score == 0 {
        proof {
            assert forall|j: int| 0 <= j < field_keywords().len() implies #[trigger] field_score(
                j,
                lowercase(query@),
            ) == 0 by {
                assert(field_score(j, lower@) <= best_score);
            }
        }
        "style".to_owned()
    } else {
        let field = fields[best].0.clone();
        proof {
            assert(fs[best as int] == (fields@[best as int].0@, fields@[best as int].1.deep_view()));
            assert(field@ == field_keywords()[best as int].0);
            assert(field_score(best as int, lowercase(query@)) > 0);
        }
        field
    }
}

/// A hint that occurs counts for its field.
proof fn lemma_hint_score_positive(
    hints: Seq<(Seq<char>, Seq<char>)>,
    field: Seq<char>,
    query: Seq<char>,
    n: int,
    w: int,
)
    requires
        0 <= w < n <= hints.len(),
        hints[w].1 == field,
        hint_hits(hints[w].0, query),
    ensures
        hint_score(hints, field, query, n) > 0,
    decreases n,
{
    if w < n - 1 {
        lemma_hint_score_positive(hints, field, query, n - 1, w);
    }
}

} // verus!
