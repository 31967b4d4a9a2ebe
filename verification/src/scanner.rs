//! What the tree scan decides for each entry of a project tree, and how the
//! bytes of a file become text.
//!
//! An entry is passed over where the ignore rules of version control match
//! it or where an exclude pattern matches its root-relative path or one
//! segment of that path. A directory that is not passed over is descended into. A file
//! is read where its extension is on the allow-list, whatever the case of its
//! letters.

use crate::text::{
    chars_of, eq_ignore_ascii_case, equals_ignore_ascii_case, push_all, replace_char, replaced,
    string_of, to_string,
};
use crate::vcs::{is_plain_relative, matcher_root, matcher_rules, rules_ignore, vcs_ignored};
use globset::{Glob, GlobSet, GlobSetBuilder};
use ignore::gitignore::Gitignore;
use vstd::prelude::*;

verus! {

/// `globset::Glob`: one parsed pattern.
#[verifier::external_type_specification]
#[verifier::external_body]
pub struct ExGlob(Glob);

/// `globset::Error`: why a pattern did not parse or a set did not build.
#[verifier::external_type_specification]
#[verifier::external_body]
pub struct ExGlobError(globset::Error);

/// `globset::GlobSetBuilder`: the patterns collected for a set.
#[verifier::external_type_specification]
#[verifier::external_body]
pub struct ExGlobSetBuilder(GlobSetBuilder);

/// `globset::GlobSet`: patterns that are matched together.
#[verifier::external_type_specification]
#[verifier::external_body]
pub struct ExGlobSet(GlobSet);

/// Whether `pattern` parses as a glob with the default options.
pub uninterp spec fn glob_compiles(pattern: Seq<char>) -> bool;

/// The pattern that a glob was parsed from, as `Glob::glob` gives it.
pub uninterp spec fn glob_source(glob: Glob) -> Seq<char>;

/// Whether the glob parsed from `pattern` matches `path`.
pub uninterp spec fn glob_matches(pattern: Seq<char>, path: Seq<char>) -> bool;

/// The patterns that a builder has collected, in order.
pub uninterp spec fn builder_patterns(builder: GlobSetBuilder) -> Seq<Seq<char>>;

/// Whether a set can be built of the patterns `patterns`.
pub uninterp spec fn set_builds(patterns: Seq<Seq<char>>) -> bool;

/// Whether the set accepts `path`.
pub uninterp spec fn set_accepts(set: GlobSet, path: Seq<char>) -> bool;

/// The lower case of `s` as `str::to_lowercase` gives it.
pub uninterp spec fn lowercase(s: Seq<char>) -> Seq<char>;

/// The text and the error flag that `encoding_rs` gives for `bytes` read in
/// `encoding`.
pub uninterp spec fn decoded(encoding: TextEncoding, bytes: Seq<u8>) -> (Seq<char>, bool);

/// The encodings that a file is tried in.
#[derive(Clone, Copy, Debug, PartialEq, Eq, Structural)]
pub enum TextEncoding {
    Utf8,
    Gbk,
    Windows1252,
}

/// What the scan does with an entry.
#[derive(Clone, Copy, Debug, PartialEq, Eq, Structural)]
pub enum EntryAction {
    /// Pass it over.
    Skip,
    /// A directory to scan.
    Descend,
    /// A file to read and index.
    Read,
}

/// `s` holds a `\\`.
pub open spec fn has_backslash(s: Seq<char>) -> bool {
    s.contains('\\')
}

/// One of `patterns` matches `path`.
pub open spec fn matches_any(patterns: Seq<Seq<char>>, path: Seq<char>) -> bool {
    exists|i: int| 0 <= i < patterns.len() && glob_matches(#[trigger] patterns[i], path)
}

/// `s[from..to]` is a segment of the path `s`: a longest stretch without `/`
/// that is not empty.
pub open spec fn is_segment(s: Seq<char>, from: int, to: int) -> bool {
    &&& 0 <= from < to <= s.len()
    &&& forall|k: int| from <= k < to ==> s[k] != '/'
    &&& (from == 0 || s[from - 1] == '/')
    &&& (to == s.len() || s[to] == '/')
}

/// The set accepts what one of `patterns` matches, for every path without
/// `\`.
pub open spec fn accepts_what_matches(set: GlobSet, patterns: Seq<Seq<char>>) -> bool {
    forall|path: Seq<char>|
        !has_backslash(path) ==> #[trigger] set_accepts(set, path) == matches_any(patterns, path)
}

/// The set accepts the root-relative path `rel`, written with `/`, or one of
/// its segments.
pub open spec fn excluded_by(set: GlobSet, rel: Seq<char>) -> bool {
    let path = replaced(rel, '\\', '/');
    ||| set_accepts(set, path)
    ||| exists|from: int, to: int| #[trigger]
        is_segment(path, from, to) && set_accepts(set, path.subrange(from, to))
}

/// Those of the first `n` patterns that parse, in order.
pub open spec fn compiling(patterns: Seq<Seq<char>>, n: int) -> Seq<Seq<char>>
    decreases n,
{
    if n <= 0 {
        Seq::empty()
    } else if glob_compiles(patterns[n - 1]) {
        compiling(patterns, n - 1).push(patterns[n - 1])
    } else {
        compiling(patterns, n - 1)
    }
}

/// `i` is the position of the last `.` in `name`.
pub open spec fn is_last_dot(name: Seq<char>, i: int) -> bool {
    &&& 0 <= i < name.len()
    &&& name[i] == '.'
    &&& forall|k: int| i < k < name.len() ==> name[k] != '.'
}

/// The extension of the file name `name`: what follows its last `.`, unless
/// that `.` is its first character.
pub open spec fn extension_of(name: Seq<char>) -> Option<Seq<char>> {
    if exists|i: int| 0 < i && is_last_dot(name, i) {
        let i = choose|i: int| 0 < i && is_last_dot(name, i);
        Some(name.skip(i + 1))
    } else {
        None
    }
}

/// The extension of `name`, in lower case behind a `.`, is on the list,
/// whatever the case of the ASCII letters on the list.
pub open spec fn extension_listed(name: Seq<char>, text_exts: Seq<Seq<char>>) -> bool {
    match extension_of(name) {
        Some(ext) => exists|i: int|
            0 <= i < text_exts.len() && eq_ignore_ascii_case(
                #[trigger] text_exts[i],
                lowercase("."@ + ext),
            ),
        None => false,
    }
}

/// The text of a file: UTF-8 where the bytes are that, else GBK, else
/// Windows-1252, each only where it decodes without error; and where none
/// does, UTF-8 with replacement characters.
pub open spec fn text_of(bytes: Seq<u8>) -> Seq<char> {
    if !decoded(TextEncoding::Utf8, bytes).1 {
        decoded(TextEncoding::Utf8, bytes).0
    } else if !decoded(TextEncoding::Gbk, bytes).1 {
        decoded(TextEncoding::Gbk, bytes).0
    } else if !decoded(TextEncoding::Windows1252, bytes).1 {
        decoded(TextEncoding::Windows1252, bytes).0
    } else {
        decoded(TextEncoding::Utf8, bytes).0
    }
}

/// `globset::Glob::new`: parses `pattern` with the default options. Believed
/// of it: whether it succeeds depends on the pattern alone, and the glob that
/// it gives is the one of `pattern`.
#[verifier::external_body]
fn glob_new(pattern: &str) -> (r: Result<Glob, globset::Error>)
    ensures
        r is Ok <==> glob_compiles(pattern@),
        r matches Ok(g) ==> glob_source(g) == pattern@,
{
    Glob::new(pattern)
}

/// `globset::GlobSetBuilder::new`. Believed of it: the builder holds no
/// pattern.
#[verifier::external_body]
fn builder_new() -> (builder: GlobSetBuilder)
    ensures
        builder_patterns(builder) == Seq::<Seq<char>>::empty(),
{
    GlobSetBuilder::new()
}

/// `globset::GlobSetBuilder::add`. Believed of it: the builder holds what it
/// held, and behind that the pattern of `glob`.
#[verifier::external_body]
fn builder_add(builder: &mut GlobSetBuilder, glob: Glob)
    ensures
        builder_patterns(*final(builder)) == builder_patterns(*old(builder)).push(
            glob_source(glob),
        ),
{
    builder.add(glob);
}

/// `globset::GlobSetBuilder::build`. Believed of it: whether it gives a set
/// depends on the patterns of the builder alone, and a set that it gives
/// accepts a path where one of those patterns matches it. The set keeps no
/// pattern, so nothing is said of what it holds.
#[verifier::external_body]
fn builder_build(builder: &GlobSetBuilder) -> (r: Result<GlobSet, globset::Error>)
    ensures
        r is Ok <==> set_builds(builder_patterns(*builder)),
        r matches Ok(set) ==> (forall|path: Seq<char>|
            !has_backslash(path) ==> #[trigger] set_accepts(set, path) == (exists|i: int|
                0 <= i < builder_patterns(*builder).len() && glob_matches(
                    #[trigger] builder_patterns(*builder)[i],
                    path,
                ))),
{
    builder.build()
}

/// `globset::GlobSet::is_match`. Believed of it: the answer depends on the
/// set and the path alone. A `\` in `path` is a separator on some platforms
/// only, so none may occur.
#[verifier::external_body]
fn set_is_match(set: &GlobSet, path: &str) -> (r: bool)
    requires
        !has_backslash(path@),
    ensures
        r == set_accepts(*set, path@),
{
    set.is_match(path)
}

/// `str::to_lowercase`. Believed of it: the result depends on `s` alone.
#[verifier::external_body]
pub(crate) fn to_lowercase(s: &str) -> (out: String)
    ensures
        out@ == lowercase(s@),
{
    s.to_lowercase()
}

/// `encoding_rs::Encoding::decode` on `UTF_8`, `GBK` or `WINDOWS_1252`: it
/// gives the text, and whether a malformed sequence was replaced, for bytes
/// whose text fits into memory three times over. Believed of it: both depend
/// on the encoding and the bytes alone.
#[verifier::external_body]
fn decode_as(encoding: TextEncoding, bytes: &Vec<u8>) -> (r: (String, bool))
    requires
        bytes@.len() < usize::MAX / 4,
    ensures
        (r.0@, r.1) == decoded(encoding, bytes@),
{
    let codec = match encoding {
        TextEncoding::Utf8 => encoding_rs::UTF_8,
        TextEncoding::Gbk => encoding_rs::GBK,
        TextEncoding::Windows1252 => encoding_rs::WINDOWS_1252,
    };
    let (text, _, had_errors) = codec.decode(bytes);
    (text.into_owned(), had_errors)
}

/// Builds the set of the exclude patterns that parse; a pattern that does
/// not is left out. `None` where no set can be built of those that parse.
pub fn build_exclude_globset(exclude_patterns: &Vec<String>) -> (r: Option<GlobSet>)
    ensures
        r is Some <==> set_builds(
            compiling(exclude_patterns.deep_view(), exclude_patterns@.len() as int),
        ),
        r matches Some(set) ==> accepts_what_matches(
            set,
            compiling(exclude_patterns.deep_view(), exclude_patterns@.len() as int),
        ),
{
    let mut builder = builder_new();
    let mut i: usize = 0;
    while i < exclude_patterns.len()
        invariant
            i <= exclude_patterns@.len(),
            builder_patterns(builder) == compiling(exclude_patterns.deep_view(), i as int),
        decreases exclude_patterns.len() - i,
    {
        proof {
            assert(exclude_patterns.deep_view()[i as int] == exclude_patterns@[i as int]@);
        }
        match glob_new(exclude_patterns[i].as_str()) {
            Ok(glob) => builder_add(&mut builder, glob),
            Err(_) => {},
        }
        i = i + 1;
    }
    let built = builder_build(&builder);
    let set = built_exclude_set(built);
    proof {
        if set is Some {
            assert(accepts_what_matches(
                set->0,
                compiling(exclude_patterns.deep_view(), exclude_patterns@.len() as int),
            ));
        }
    }
    set
}

/// Whether the entry at the root-relative path `rel` is excluded: whether a
/// pattern of `exclude` matches the path, written with `/`, or one of its
/// segments. Nothing is excluded where there is no set.
pub fn should_exclude(rel: &str, exclude: &Option<GlobSet>) -> (r: bool)
    ensures
        r == match *exclude {
            Some(set) => excluded_by(set, rel@),
            None => false,
        },
{
    let set = match exclude {
        Some(s) => s,
        None => {
            return false;
        },
    };
    let path = replace_char(&chars_of(rel), '\\', '/');
    let whole = to_string(&path);
    proof {
        assert(!path@.contains('\\')) by {
            if path@.contains('\\') {
                let k = choose|k: int| 0 <= k < path@.len() && path@[k] == '\\';
                assert(replaced(rel@, '\\', '/')[k] != '\\');
            }
        }
    }
    if set_is_match(set, whole.as_str()) {
        return true;
    }
    proof {
        assert(*exclude == Some(*set));
    }
    let mut start: usize = 0;
    let mut i: usize = 0;
    while i <= path.len()
        invariant
            start <= i <= path@.len() + 1,
            start <= path@.len(),
            *exclude == Some(*set),
            !set_accepts(*set, path@),
            path@ == replaced(rel@, '\\', '/'),
            !path@.contains('\\'),
            start == 0 || path@[start - 1] == '/',
            forall|k: int| start <= k < i && k < path@.len() ==> path@[k] != '/',
            forall|from: int, to: int|
                to < i && #[trigger] is_segment(path@, from, to) ==> !set_accepts(
                    *set,
                    path@.subrange(from, to),
                ),
        decreases path@.len() + 1 - i,
    {
        if i == path.len() || path[i] == '/' {
            if start < i {
                let segment = string_of(&path, start, i);
                proof {
                    assert(!segment@.contains('\\')) by {
                        if segment@.contains('\\') {
                            let k = choose|k: int| 0 <= k < segment@.len() && segment@[k] == '\\';
                            assert(path@[start + k] == '\\');
                        }
                    }
                    assert(is_segment(path@, start as int, i as int));
                }
                if set_is_match(set, segment.as_str()) {
                    proof {
                        assert(set_accepts(
                    *set,
                    path@.subrange(start as int, i as int)));
                    }
                    return true;
                }
            }
            proof {
                assert forall|from: int, to: int|
                    to < i + 1 && #[trigger] is_segment(path@, from, to) implies !set_accepts(
                    *set,
                    path@.subrange(from, to),
                ) by {
                    if to == i {
                        if from < start {
                            assert(path@[start - 1] != '/');
                        }
                        if from > start {
                            assert(path@[from - 1] != '/');
                        }
                        assert(from == start);
                    }
                }
            }
            if i == path.len() {
                proof {
                    assert forall|from: int, to: int| #[trigger]
                        is_segment(path@, from, to) implies !set_accepts(
                    *set,
                    path@.subrange(from, to),
                    ) by {}
                }
                return false;
            }
            start = i + 1;
        } else {
            proof {
                assert forall|from: int, to: int|
                    to < i + 1 && #[trigger] is_segment(path@, from, to) implies !set_accepts(
                    *set,
                    path@.subrange(from, to),
                ) by {
                    if to == i {
                        assert(path@[to] != '/');
                    }
                }
            }
        }
        i = i + 1;
    }
    false
}

/// Whether the extension of the file name `name` is on the allow-list.
pub fn extension_allowed(name: &str, text_exts: &Vec<String>) -> (r: bool)
    ensures
        r == extension_listed(name@, text_exts.deep_view()),
{
    let cs = chars_of(name);
    let mut dot: usize = cs.len();
    while dot > 0 && cs[dot - 1] != '.'
        invariant
            dot <= cs@.len(),
            forall|k: int| dot <= k < cs@.len() ==> cs@[k] != '.',
        decreases dot,
    {
        dot = dot - 1;
    }
    if dot <= 1 {
        proof {
            if exists|i: int| 0 < i && is_last_dot(name@, i) {
                let i = choose|i: int| 0 < i && is_last_dot(name@, i);
                assert(i >= dot);
            }
        }
        return false;
    }
    proof {
        assert(is_last_dot(name@, dot - 1));
        let i = choose|i: int| 0 < i && is_last_dot(name@, i);
        assert(i == dot - 1) by {
            if i < dot - 1 {
                assert(name@[dot - 1] != '.');
            }
            if i > dot - 1 {
                assert(name@[i] != '.');
            }
        }
        assert(cs@.subrange(dot as int, cs@.len() as int) =~= name@.skip(dot as int));
    }
    let mut tagged = chars_of(".");
    let ext = string_of(&cs, dot, cs.len());
    let ext_chars = chars_of(ext.as_str());
    push_all(&mut tagged, &ext_chars);
    let lowered = to_lowercase(to_string(&tagged).as_str());
    let wanted = chars_of(lowered.as_str());
    let mut i: usize = 0;
    while i < text_exts.len()
        invariant
            i <= text_exts@.len(),
            wanted@ == lowercase("."@ + name@.skip(dot as int)),
            extension_of(name@) == Some(name@.skip(dot as int)),
            forall|k: int|
                0 <= k < i ==> !eq_ignore_ascii_case(
                    #[trigger] text_exts.deep_view()[k],
                    wanted@,
                ),
        decreases text_exts.len() - i,
    {
        let listed = chars_of(text_exts[i].as_str());
        proof {
            assert(text_exts.deep_view()[i as int] == text_exts@[i as int]@);
        }
        if equals_ignore_ascii_case(&listed, &wanted) {
            return true;
        }
        i = i + 1;
    }
    false
}

/// What the scan does with an entry: `rel` is its root-relative path, `name`
/// its file name, `rules` the ignore rules of the root. The ignore rules
/// come first, then the exclude patterns, then the extension.
pub fn classify_entry(
    rel: &str,
    name: &str,
    is_dir: bool,
    rules: &Option<Gitignore>,
    exclude: &Option<GlobSet>,
    text_exts: &Vec<String>,
) -> (action: EntryAction)
    ensures
        action == {
            let ignored = match *rules {
                Some(matcher) => {
                    let path = replaced(rel@, '\\', '/');
                    is_plain_relative(path) && rules_ignore(
                        matcher_root(matcher),
                        matcher_rules(matcher),
                        path,
                        is_dir,
                    )
                },
                None => false,
            };
            let excluded = match *exclude {
                Some(set) => excluded_by(set, rel@),
                None => false,
            };
            if ignored || excluded {
                EntryAction::Skip
            } else if is_dir {
                EntryAction::Descend
            } else if extension_listed(name@, text_exts.deep_view()) {
                EntryAction::Read
            } else {
                EntryAction::Skip
            }
        },
{
    if vcs_ignored(rules, rel, is_dir) {
        return EntryAction::Skip;
    }
    if should_exclude(rel, exclude) {
        return EntryAction::Skip;
    }
    if is_dir {
        return EntryAction::Descend;
    }
    if extension_allowed(name, text_exts) {
        EntryAction::Read
    } else {
        EntryAction::Skip
    }
}

/// The text of a file with the bytes `bytes`: the first of UTF-8, GBK and
/// Windows-1252 that decodes them without error, else UTF-8 with replacement
/// characters.
pub fn decode_with_fallback(bytes: &Vec<u8>) -> (text: String)
    requires
        bytes@.len() < usize::MAX / 4,
    ensures
        text@ == text_of(bytes@),
{
    let (utf8, utf8_errors) = decode_as(TextEncoding::Utf8, bytes);
    if !utf8_errors {
        return utf8;
    }
    let (gbk, gbk_errors) = decode_as(TextEncoding::Gbk, bytes);
    if !gbk_errors {
        return gbk;
    }
    let (latin, latin_errors) = decode_as(TextEncoding::Windows1252, bytes);
    if !latin_errors {
        return latin;
    }
    utf8
}

/// The set to exclude with, given what the build of it came to: the set
/// that was built, or none where the build failed, and then nothing is
/// excluded.
pub fn built_exclude_set(built: Result<GlobSet, globset::Error>) -> (r: Option<GlobSet>)
    ensures
        built is Ok ==> r == Some(built->Ok_0),
        built is Err ==> r is None,
{
    match built {
        Ok(set) => Some(set),
        Err(_) => None,
    }
}

} // verus!
