//! The ignore rules of version control: the `.gitignore` file at the root of
//! a project, and nothing below it.
//!
//! The rules are the lines of that file, but for comments and blank lines.
//! Where a line does not parse, there are no rules at all.

use crate::scanner::has_backslash;
use crate::text::{chars_between, chars_of, replace_char, replaced, to_string, trailing_spaces};
use ignore::gitignore::{Gitignore, GitignoreBuilder};
use vstd::prelude::*;

verus! {

/// `ignore::gitignore::GitignoreBuilder`: the rules collected for a matcher.
#[verifier::external_type_specification]
#[verifier::external_body]
pub struct ExGitignoreBuilder(GitignoreBuilder);

/// `ignore::gitignore::Gitignore`: a matcher for the rules of one file.
#[verifier::external_type_specification]
#[verifier::external_body]
pub struct ExGitignore(Gitignore);

/// `ignore::Error`: why a matcher could not be built.
#[verifier::external_type_specification]
#[verifier::external_body]
pub struct ExIgnoreError(ignore::Error);

/// Whether `line` is taken as a line of a `.gitignore` file: whether it is
/// a comment, blank, or a rule that parses.
pub uninterp spec fn rule_parses(line: Seq<char>) -> bool;

/// The rules that a builder holds, each as it was written, in order.
pub uninterp spec fn builder_rules(builder: GitignoreBuilder) -> Seq<Seq<char>>;

/// The rules that a matcher was built from, each as it was written, in
/// order.
pub uninterp spec fn matcher_rules(matcher: Gitignore) -> Seq<Seq<char>>;

/// The directory that a builder was made for, as it keeps it.
pub uninterp spec fn builder_root(builder: GitignoreBuilder) -> Seq<char>;

/// The directory that a matcher matches relative to, as `Gitignore::path`
/// gives it.
pub uninterp spec fn matcher_root(matcher: Gitignore) -> Seq<char>;

/// Whether a matcher can be built of the rules `rules`.
pub uninterp spec fn matcher_builds(rules: Seq<Seq<char>>) -> bool;

/// Whether a matcher at `root` with the rules `rules` ignores the entry at
/// the path `rel` below `root`, or a directory above it.
pub uninterp spec fn rules_ignore(
    root: Seq<char>,
    rules: Seq<Seq<char>>,
    rel: Seq<char>,
    is_dir: bool,
) -> bool;

/// The rule that the line `line` of a `.gitignore` file holds: none for a
/// comment, which begins with `#`, and for a line of white space; else the
/// line without the white space at its end, which stays where a `\` stands
/// before a last space.
pub open spec fn kept_rule(line: Seq<char>) -> Option<Seq<char>> {
    if line.len() > 0 && line[0] == '#' {
        None
    } else {
        let rule = if line.len() >= 2 && line[line.len() - 2] == '\\' && line[line.len() - 1]
            == ' ' {
            line
        } else {
            line.take(line.len() - trailing_spaces(line))
        };
        if rule.len() == 0 {
            None
        } else {
            Some(rule)
        }
    }
}

/// The rules that the first `n` of `lines` hold, in order.
pub open spec fn kept_rules(lines: Seq<Seq<char>>, n: int) -> Seq<Seq<char>>
    decreases n,
{
    if n <= 0 {
        Seq::empty()
    } else {
        match kept_rule(lines[n - 1]) {
            Some(rule) => kept_rules(lines, n - 1).push(rule),
            None => kept_rules(lines, n - 1),
        }
    }
}

/// A root that a builder keeps as it is spelled: one that does not begin with
/// `.`.
pub open spec fn keeps_its_spelling(root: Seq<char>) -> bool {
    root.len() == 0 || root[0] != '.'
}

/// Every one of `lines` is taken.
pub open spec fn all_parse(lines: Seq<Seq<char>>) -> bool {
    forall|i: int| 0 <= i < lines.len() ==> rule_parses(#[trigger] lines[i])
}

/// The byte-order mark.
pub open spec fn bom() -> char {
    '\u{feff}'
}

/// `s` without the byte-order marks at its start.
pub open spec fn without_boms(s: Seq<char>) -> Seq<char>
    decreases s.len(),
{
    if s.len() > 0 && s[0] == bom() {
        without_boms(s.skip(1))
    } else {
        s
    }
}

/// `s` without one `'\r'` at its end.
pub open spec fn without_cr(s: Seq<char>) -> Seq<char> {
    if s.len() > 0 && s.last() == '\r' {
        s.drop_last()
    } else {
        s
    }
}

/// The lines among the first `n` characters of `text` that a `'\n'` has
/// ended, without their line ends, and where the line that is still open
/// begins.
pub open spec fn ended_lines(text: Seq<char>, n: int) -> (Seq<Seq<char>>, int)
    decreases n,
{
    if n <= 0 {
        (Seq::empty(), 0)
    } else {
        let (done, start) = ended_lines(text, n - 1);
        if text[n - 1] == '\n' {
            (done.push(without_cr(text.subrange(start, n - 1))), n)
        } else {
            (done, start)
        }
    }
}

/// The lines of `text`, without their line ends (`"\n"` or `"\r\n"`).
pub open spec fn text_lines(text: Seq<char>) -> Seq<Seq<char>> {
    let (done, start) = ended_lines(text, text.len() as int);
    if start < text.len() {
        done.push(text.subrange(start, text.len() as int))
    } else {
        done
    }
}

/// The rules in the text of a `.gitignore` file: its lines, the first one
/// without byte-order marks.
pub open spec fn rules_of(text: Seq<char>) -> Seq<Seq<char>> {
    let lines = text_lines(text);
    if lines.len() > 0 {
        lines.update(0, without_boms(lines[0]))
    } else {
        lines
    }
}

/// A path that reads the same on every platform and is relative on each: it
/// has no `\`, does not begin with `/`, and does not begin with a drive
/// letter and `:`.
pub open spec fn is_plain_relative(rel: Seq<char>) -> bool {
    &&& !has_backslash(rel)
    &&& (rel.len() > 0 ==> rel[0] != '/')
    &&& !(rel.len() >= 2 && rel[1] == ':' && (('a' <= rel[0] <= 'z') || ('A' <= rel[0] <= 'Z')))
}

/// `ignore::gitignore::GitignoreBuilder::new`. Believed of it: the builder
/// holds no rule, and it keeps the root as it is given where that does not
/// begin with `.` (of a root that does, a leading `./` may go).
#[verifier::external_body]
fn rules_builder_new(root: &str) -> (builder: GitignoreBuilder)
    ensures
        builder_rules(builder) == Seq::<Seq<char>>::empty(),
        keeps_its_spelling(root@) ==> builder_root(builder) == root@,
{
    GitignoreBuilder::new(root)
}

/// `ignore::gitignore::GitignoreBuilder::add_line`, for a line of no
/// particular file. Believed of it: whether it succeeds depends on the line
/// alone; where it does, and the line holds a rule, the builder holds that
/// rule behind those that it held; else the builder is as it was. Its root
/// stays.
#[verifier::external_body]
fn rules_builder_add_line(builder: &mut GitignoreBuilder, line: &str) -> (ok: bool)
    ensures
        ok == rule_parses(line@),
        builder_root(*final(builder)) == builder_root(*old(builder)),
        builder_rules(*final(builder)) == if ok && kept_rule(line@) is Some {
            builder_rules(*old(builder)).push(kept_rule(line@)->0)
        } else {
            builder_rules(*old(builder))
        },
{
    builder.add_line(None, line).is_ok()
}

/// `ignore::gitignore::GitignoreBuilder::build`. Believed of it: whether it
/// gives a matcher depends on the rules of the builder alone, and a matcher
/// that it gives is built from those rules, for the root of the builder.
#[verifier::external_body]
fn rules_builder_build(builder: &GitignoreBuilder) -> (r: Result<Gitignore, ignore::Error>)
    ensures
        r is Ok <==> matcher_builds(builder_rules(*builder)),
        r matches Ok(matcher) ==> matcher_rules(matcher) == builder_rules(*builder),
        r matches Ok(matcher) ==> matcher_root(matcher) == builder_root(*builder),
{
    builder.build()
}

/// `ignore::gitignore::Gitignore::matched_path_or_any_parents`, asked of the
/// path `rel` below the matcher's root, and `Match::is_ignore` of its
/// answer. The path must be relative, or the call does not return. Believed
/// of it: the answer depends on the root and the rules of the matcher, the
/// path and `is_dir` alone.
#[verifier::external_body]
fn matcher_ignores(matcher: &Gitignore, rel: &str, is_dir: bool) -> (r: bool)
    requires
        is_plain_relative(rel@),
    ensures
        r == rules_ignore(matcher_root(*matcher), matcher_rules(*matcher), rel@, is_dir),
{
    matcher.matched_path_or_any_parents(matcher.path().join(rel), is_dir).is_ignore()
}

/// The lines of `text`, without their line ends, the first one without
/// byte-order marks.
pub fn rule_lines(text: &str) -> (out: Vec<String>)
    ensures
        out.deep_view() == rules_of(text@),
{
    let cs = chars_of(text);
    let mut lines: Vec<Vec<char>> = Vec::new();
    let mut start: usize = 0;
    let mut i: usize = 0;
    while i < cs.len()
        invariant
            start <= i <= cs@.len(),
            cs@ == text@,
            lines@.len() == ended_lines(text@, i as int).0.len(),
            forall|k: int|
                0 <= k < lines@.len() ==> (#[trigger] lines@[k])@ == ended_lines(
                    text@,
                    i as int,
                ).0[k],
            start == ended_lines(text@, i as int).1,
        decreases cs.len() - i,
    {
        if cs[i] == '\n' {
            let end: usize = if start < i && cs[i - 1] == '\r' {
                i - 1
            } else {
                i
            };
            proof {
                let raw = text@.subrange(start as int, i as int);
                if start < i {
                    assert(raw.last() == text@[i as int - 1]);
                    assert(raw.drop_last() =~= text@.subrange(start as int, i as int - 1));
                }
            }
            lines.push(chars_between(&cs, start, end));
            start = i + 1;
        }
        i = i + 1;
    }
    if start < cs.len() {
        lines.push(chars_between(&cs, start, cs.len()));
    }
    let ghost all = text_lines(text@);
    let mut out: Vec<String> = Vec::new();
    let mut k: usize = 0;
    while k < lines.len()
        invariant
            k <= lines@.len(),
            all == text_lines(text@),
            lines@.len() == all.len(),
            forall|j: int| 0 <= j < lines@.len() ==> (#[trigger] lines@[j])@ == all[j],
            out@.len() == k,
            forall|j: int| 0 <= j < k ==> (#[trigger] out@[j])@ == rules_of(text@)[j],
        decreases lines.len() - k,
    {
        if k == 0 {
            let first = &lines[0];
            let mut b: usize = 0;
            proof {
                assert(first@.skip(0) =~= first@);
            }
            while b < first.len() && first[b] == '\u{feff}'
                invariant
                    b <= first@.len(),
                    without_boms(first@) == without_boms(first@.skip(b as int)),
                decreases first.len() - b,
            {
                proof {
                    assert(first@.skip(b as int).skip(1) =~= first@.skip(b as int + 1));
                }
                b = b + 1;
            }
            proof {
                assert(first@.skip(0) =~= first@);
                assert(first@.subrange(b as int, first@.len() as int) =~= first@.skip(b as int));
            }
            out.push(to_string(&chars_between(first, b, first.len())));
        } else {
            out.push(to_string(&lines[k]));
        }
        k = k + 1;
    }
    proof {
        assert(out.deep_view() =~= rules_of(text@));
    }
    out
}

/// The matcher for the `.gitignore` file with the text `text` at the root
/// `root`. There is one where every line is taken and a matcher can be built
/// of the rules that the lines hold, and only there.
pub fn build_gitignore(root: &str, text: &str) -> (r: Option<Gitignore>)
    ensures
        r is Some <==> all_parse(rules_of(text@)) && matcher_builds(
            kept_rules(rules_of(text@), rules_of(text@).len() as int),
        ),
        r matches Some(matcher) ==> matcher_rules(matcher) == kept_rules(
            rules_of(text@),
            rules_of(text@).len() as int,
        ),
        r matches Some(matcher) ==> (keeps_its_spelling(root@) ==> matcher_root(matcher)
            == root@),
{
    let lines = rule_lines(text);
    let mut builder = rules_builder_new(root);
    let mut i: usize = 0;
    while i < lines.len()
        invariant
            i <= lines@.len(),
            lines.deep_view() == rules_of(text@),
            builder_rules(builder) == kept_rules(rules_of(text@), i as int),
            keeps_its_spelling(root@) ==> builder_root(builder) == root@,
            forall|j: int| 0 <= j < i ==> rule_parses(#[trigger] rules_of(text@)[j]),
        decreases lines.len() - i,
    {
        proof {
            assert(lines.deep_view()[i as int] == lines@[i as int]@);
        }
        if !rules_builder_add_line(&mut builder, lines[i].as_str()) {
            proof {
                assert(!rule_parses(rules_of(text@)[i as int]));
            }
            return None;
        }
        i = i + 1;
    }
    let built = rules_builder_build(&builder);
    built_matcher(built)
}

/// Whether version control ignores the entry at the root-relative path
/// `rel`: whether the rules match it, written with `/`, or a directory
/// above it. Nothing is ignored without rules, nor is a path that is not
/// plainly relative.
pub fn vcs_ignored(rules: &Option<Gitignore>, rel: &str, is_dir: bool) -> (r: bool)
    ensures
        r == match *rules {
            Some(matcher) => {
                let path = replaced(rel@, '\\', '/');
                is_plain_relative(path) && rules_ignore(
                    matcher_root(matcher),
                    matcher_rules(matcher),
                    path,
                    is_dir,
                )
            },
            None => false,
        },
{
    let matcher = match rules {
        Some(m) => m,
        None => {
            return false;
        },
    };
    let path = replace_char(&chars_of(rel), '\\', '/');
    proof {
        assert(!has_backslash(path@)) by {
            if path@.contains('\\') {
                let k = choose|k: int| 0 <= k < path@.len() && path@[k] == '\\';
                assert(replaced(rel@, '\\', '/')[k] != '\\');
            }
        }
    }
    if path.len() > 0 && path[0] == '/' {
        return false;
    }
    if path.len() >= 2 && path[1] == ':' && (('a' <= path[0] && path[0] <= 'z') || ('A' <= path[0]
        && path[0] <= 'Z')) {
        return false;
    }
    let p = to_string(&path);
    matcher_ignores(matcher, p.as_str(), is_dir)
}

/// The rules to ignore by, given what the build of their matcher came to:
/// the matcher that was built, or none where the build failed, and then
/// nothing is ignored.
pub fn built_matcher(built: Result<Gitignore, ignore::Error>) -> (r: Option<Gitignore>)
    ensures
        built is Ok ==> r == Some(built->Ok_0),
        built is Err ==> r is None,
{
    match built {
        Ok(matcher) => Some(matcher),
        Err(_) => None,
    }
}

} // verus!
