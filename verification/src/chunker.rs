//! Splitting a file's text into blobs of a bounded number of lines.
//!
//! A line ends with its `'\n'`; the last line may lack one. A file of at most
//! `max_lines` lines is one blob under its own path. A longer file is cut at
//! line boundaries into chunks of `max_lines` lines (the last one may be
//! shorter), and chunk `i` of `n` is named `"{path}#chunk{i}of{n}"`, counting
//! from 1.

use crate::text::{
    chars_of, decimal, decimal_digits, find_from, has_substring, is_first_match, push_all,
    push_str, string_of, to_string,
};
use vstd::prelude::*;

verus! {

/// The unit of indexable content: a path and the text found under it.
pub struct BlobItem {
    pub path: String,
    pub content: String,
}

/// A blob as plain values.
pub ghost struct BlobModel {
    pub path: Seq<char>,
    pub content: Seq<char>,
}

impl View for BlobItem {
    type V = BlobModel;

    open spec fn view(&self) -> BlobModel {
        BlobModel { path: self.path@, content: self.content@ }
    }
}

impl DeepView for BlobItem {
    type V = BlobModel;

    open spec fn deep_view(&self) -> BlobModel {
        self@
    }
}

impl BlobItem {
    /// A copy of this blob.
    pub fn duplicate(&self) -> (out: BlobItem)
        ensures
            out@ == self@,
    {
        BlobItem { path: self.path.clone(), content: self.content.clone() }
    }
}

/// The positions at which the lines of `s` begin, in increasing order: 0 (if
/// `s` is not empty) and every position that follows a `'\n'`.
pub open spec fn line_starts(s: Seq<char>) -> Seq<int>
    decreases s.len(),
{
    if s.len() == 0 {
        Seq::empty()
    } else {
        let t = s.drop_last();
        if t.len() == 0 || t.last() == '\n' {
            line_starts(t).push(t.len() as int)
        } else {
            line_starts(t)
        }
    }
}

/// The number of lines of `s`.
pub open spec fn line_count(s: Seq<char>) -> nat {
    line_starts(s).len()
}

/// Where line `k` of `s` begins; the end of `s` for every `k` from the number
/// of lines on.
pub open spec fn line_bound(s: Seq<char>, k: int) -> int {
    if 0 <= k < line_starts(s).len() {
        line_starts(s)[k]
    } else {
        s.len() as int
    }
}

/// How many blobs a text of `lines` lines gives.
pub open spec fn chunk_count(lines: nat, max_lines: nat) -> nat {
    if lines <= max_lines {
        1
    } else {
        ((lines - 1) / (max_lines as int) + 1) as nat
    }
}

/// The text of chunk `i` (from 0): lines `i * max_lines` up to, not
/// including, `(i + 1) * max_lines`.
pub open spec fn chunk_content(s: Seq<char>, max_lines: nat, i: int) -> Seq<char> {
    s.subrange(line_bound(s, i * max_lines), line_bound(s, (i + 1) * max_lines))
}

/// The path of chunk `i` (from 0) of `n`.
pub open spec fn chunk_path(path: Seq<char>, i: int, n: nat) -> Seq<char> {
    path + "#chunk"@ + decimal((i + 1) as nat) + "of"@ + decimal(n)
}

/// The blobs that `split_content` gives.
pub open spec fn split_model(path: Seq<char>, content: Seq<char>, max_lines: nat) -> Seq<
    BlobModel,
> {
    if line_count(content) <= max_lines {
        seq![BlobModel { path, content }]
    } else {
        let n = chunk_count(line_count(content), max_lines);
        Seq::new(
            n,
            |i: int|
                BlobModel {
                    path: chunk_path(path, i, n),
                    content: chunk_content(content, max_lines, i),
                },
        )
    }
}

/// The contents of the first `n` blobs, one after the other.
pub open spec fn joined_contents(blobs: Seq<BlobModel>, n: int) -> Seq<char>
    decreases n,
{
    if n <= 0 {
        Seq::empty()
    } else {
        joined_contents(blobs, n - 1) + blobs[n - 1].content
    }
}

/// The part of `path` before the first `"#chunk"`, all of it where there is
/// none.
pub open spec fn without_chunk_suffix(path: Seq<char>) -> Seq<char> {
    if has_substring(path, "#chunk"@) {
        path.take(choose|i: int| is_first_match(path, "#chunk"@, 0, i))
    } else {
        path
    }
}

/// Line starts lie inside the text and increase; a text that is not empty
/// has a first line, which begins at 0.
pub proof fn lemma_line_starts(s: Seq<char>)
    ensures
        line_starts(s).len() <= s.len(),
        s.len() > 0 ==> line_starts(s).len() > 0 && line_starts(s)[0] == 0,
        forall|k: int| 0 <= k < line_starts(s).len() ==> 0 <= #[trigger] line_starts(s)[k] < s.len(),
        forall|j: int, k: int|
            0 <= j < k < line_starts(s).len() ==> line_starts(s)[j] < line_starts(s)[k],
    decreases s.len(),
{
    if s.len() > 0 {
        lemma_line_starts(s.drop_last());
    }
}

/// Line bounds increase with the line number and end at the end of the text.
pub proof fn lemma_line_bound(s: Seq<char>, j: int, k: int)
    requires
        0 <= j <= k,
    ensures
        0 <= line_bound(s, j) <= line_bound(s, k) <= s.len(),
        line_bound(s, 0) == 0,
{
    lemma_line_starts(s);
}

proof fn lemma_chunk_bounds(lines: nat, max_lines: nat, i: int)
    requires
        max_lines > 0,
        lines > max_lines,
        0 <= i < chunk_count(lines, max_lines),
    ensures
        i * max_lines < lines,
        i * max_lines + max_lines >= lines <==> i + 1 == chunk_count(lines, max_lines),
        (i + 1) * max_lines == i * max_lines + max_lines,
{
    let q = (lines - 1) / (max_lines as int);
    assert((lines - 1) == q * max_lines + (lines - 1) % (max_lines as int)) by {
        vstd::arithmetic::div_mod::lemma_fundamental_div_mod((lines - 1) as int, max_lines as int);
        assert(q * max_lines == max_lines * q) by (nonlinear_arith);
    }
    assert(0 <= (lines - 1) % (max_lines as int) < max_lines) by {
        vstd::arithmetic::div_mod::lemma_mod_bound((lines - 1) as int, max_lines as int);
    }
    assert(i <= q);
    assert(i * max_lines <= q * max_lines) by (nonlinear_arith)
        requires
            i <= q,
            max_lines > 0,
    ;
    assert((i + 1) * max_lines == i * max_lines + max_lines) by (nonlinear_arith);
    if i < q {
        assert((i + 1) * max_lines <= q * max_lines) by (nonlinear_arith)
            requires
                i + 1 <= q,
                max_lines > 0,
        ;
    }
}

/// A text of `lines > 0` lines gives the least number `n` of blobs with
/// `n * max_lines >= lines`, that is `lines / max_lines` rounded up.
pub proof fn lemma_chunk_count_is_ceiling(lines: nat, max_lines: nat)
    requires
        max_lines > 0,
        lines > 0,
    ensures
        (chunk_count(lines, max_lines) - 1) * max_lines < lines,
        lines <= chunk_count(lines, max_lines) * max_lines,
{
    let n = chunk_count(lines, max_lines);
    if lines <= max_lines {
        assert(n == 1);
        assert((n - 1) * max_lines == 0) by (nonlinear_arith)
            requires
                n == 1,
        ;
        assert(n * max_lines == max_lines) by (nonlinear_arith)
            requires
                n == 1,
        ;
    } else {
        lemma_chunk_bounds(lines, max_lines, n - 1);
        assert(n * max_lines == (n - 1) * max_lines + max_lines) by (nonlinear_arith);
    }
}

proof fn lemma_joined_prefix(content: Seq<char>, max_lines: nat, path: Seq<char>, k: int)
    requires
        max_lines > 0,
        line_count(content) > max_lines,
        0 <= k <= chunk_count(line_count(content), max_lines),
    ensures
        joined_contents(split_model(path, content, max_lines), k) == content.subrange(
            0,
            line_bound(content, k * max_lines),
        ),
    decreases k,
{
    let blobs = split_model(path, content, max_lines);
    if k == 0 {
        lemma_line_bound(content, 0, 0);
        assert(0 * max_lines == 0) by (nonlinear_arith);
        assert(content.subrange(0, 0) =~= Seq::<char>::empty());
    } else {
        lemma_joined_prefix(content, max_lines, path, k - 1);
        lemma_chunk_bounds(line_count(content), max_lines, k - 1);
        assert((k - 1 + 1) * max_lines == k * max_lines);
        assert((k - 1) * max_lines >= 0) by (nonlinear_arith)
            requires
                k >= 1,
                max_lines > 0,
        ;
        lemma_line_bound(content, (k - 1) * max_lines, k * max_lines);
        assert(blobs[k - 1].content == chunk_content(content, max_lines, k - 1));
        assert(content.subrange(0, line_bound(content, (k - 1) * max_lines)) + content.subrange(
            line_bound(content, (k - 1) * max_lines),
            line_bound(content, k * max_lines),
        ) =~= content.subrange(0, line_bound(content, k * max_lines)));
    }
}

/// The blobs of a text, joined in order, give the text back; a text of more
/// than `max_lines` lines gives `chunk_count` blobs, numbered from 1 in their
/// paths.
pub proof fn lemma_split_reproduces_content(path: Seq<char>, content: Seq<char>, max_lines: nat)
    requires
        max_lines > 0,
    ensures
        ({
            let blobs = split_model(path, content, max_lines);
            &&& blobs.len() == chunk_count(line_count(content), max_lines)
            &&& joined_contents(blobs, blobs.len() as int) == content
            &&& line_count(content) > max_lines ==> forall|i: int|
                0 <= i < blobs.len() ==> (#[trigger] blobs[i]).path == path + "#chunk"@ + decimal(
                    (i + 1) as nat,
                ) + "of"@ + decimal(blobs.len())
        }),
{
    let blobs = split_model(path, content, max_lines);
    if line_count(content) <= max_lines {
        assert(joined_contents(blobs, 0) =~= Seq::<char>::empty());
        assert(joined_contents(blobs, 1) =~= content);
    } else {
        let n = chunk_count(line_count(content), max_lines);
        lemma_joined_prefix(content, max_lines, path, n as int);
        lemma_chunk_bounds(line_count(content), max_lines, n - 1);
        assert(n * max_lines == (n - 1) * max_lines + max_lines) by (nonlinear_arith);
        assert(line_bound(content, (n * max_lines) as int) == content.len());
        assert(content.subrange(0, content.len() as int) =~= content);
    }
}

/// Every line begins at the beginning of the text or behind a `'\n'`.
proof fn lemma_line_starts_follow_newlines(s: Seq<char>)
    ensures
        forall|k: int|
            0 <= k < line_starts(s).len() ==> {
                let p = #[trigger] line_starts(s)[k];
                0 <= p < s.len() && (p == 0 || s[p - 1] == '\n')
            },
    decreases s.len(),
{
    if s.len() > 0 {
        let t = s.drop_last();
        lemma_line_starts_follow_newlines(t);
        assert forall|k: int| 0 <= k < line_starts(s).len() implies {
            let p = #[trigger] line_starts(s)[k];
            0 <= p < s.len() && (p == 0 || s[p - 1] == '\n')
        } by {
            if k < line_starts(t).len() {
                let p = line_starts(t)[k];
                assert(line_starts(s)[k] == p);
                if p > 0 {
                    assert(t[p - 1] == s[p - 1]);
                }
            } else {
                if t.len() > 0 {
                    assert(t.last() == s[t.len() - 1]);
                }
            }
        }
    }
}

/// The lines of a prefix of a text are the first lines of the text, and the
/// other lines begin behind the prefix.
proof fn lemma_line_starts_of_prefix(s: Seq<char>, p: int)
    requires
        0 <= p <= s.len(),
    ensures
        line_count(s.take(p)) <= line_count(s),
        line_starts(s.take(p)) == line_starts(s).take(line_count(s.take(p)) as int),
        forall|k: int|
            line_count(s.take(p)) <= k < line_count(s) ==> #[trigger] line_starts(s)[k] >= p,
    decreases s.len(),
{
    if p == s.len() {
        assert(s.take(p) =~= s);
        assert(line_starts(s).take(line_starts(s).len() as int) =~= line_starts(s));
    } else {
        let t = s.drop_last();
        assert(s.take(p) =~= t.take(p));
        lemma_line_starts_of_prefix(t, p);
        let c = line_count(t.take(p)) as int;
        assert(line_starts(s).take(c) =~= line_starts(t).take(c));
    }
}

/// As many lines begin before line `k` as `k` says, and no more than there
/// are.
proof fn lemma_lines_before_bound(s: Seq<char>, k: int)
    requires
        0 <= k,
    ensures
        0 <= line_bound(s, k) <= s.len(),
        line_count(s.take(line_bound(s, k))) == if k < line_count(s) {
            k
        } else {
            line_count(s) as int
        },
{
    lemma_line_starts(s);
    let p = line_bound(s, k);
    if k < line_count(s) {
        lemma_line_starts_of_prefix(s, p);
        lemma_line_starts(s.take(p));
        let c = line_count(s.take(p)) as int;
        if c > k {
            assert(line_starts(s.take(p))[k] == line_starts(s)[k]);
        }
        if c < k {
            assert(line_starts(s)[c] >= p);
        }
    } else {
        assert(s.take(s.len() as int) =~= s);
    }
}

/// A stretch of a text that begins where a line begins holds the lines that
/// begin in it.
proof fn lemma_lines_between(s: Seq<char>, lo: int, hi: int)
    requires
        0 <= lo <= hi <= s.len(),
        lo < hi ==> lo == 0 || s[lo - 1] == '\n',
    ensures
        line_count(s.subrange(lo, hi)) == line_count(s.take(hi)) - line_count(s.take(lo)),
    decreases hi - lo,
{
    if lo == hi {
        assert(s.subrange(lo, hi).len() == 0);
    } else {
        let u = s.subrange(lo, hi);
        let v = s.take(hi);
        assert(u.drop_last() =~= s.subrange(lo, hi - 1));
        assert(v.drop_last() =~= s.take(hi - 1));
        lemma_lines_between(s, lo, hi - 1);
        if hi - 1 > lo {
            assert(u.drop_last().last() == s[hi - 2]);
            assert(v.drop_last().last() == s[hi - 2]);
        } else {
            if lo > 0 {
                assert(v.drop_last().last() == s[lo - 1]);
            }
        }
    }
}

/// No blob of a text holds more than `max_lines` lines.
pub proof fn lemma_blobs_keep_the_limit(path: Seq<char>, content: Seq<char>, max_lines: nat)
    requires
        max_lines > 0,
    ensures
        forall|i: int|
            0 <= i < split_model(path, content, max_lines).len() ==> line_count(
                (#[trigger] split_model(path, content, max_lines)[i]).content,
            ) <= max_lines,
{
    let blobs = split_model(path, content, max_lines);
    let total = line_count(content);
    if total > max_lines {
        assert forall|i: int| 0 <= i < blobs.len() implies line_count(
            (#[trigger] blobs[i]).content,
        ) <= max_lines by {
            lemma_chunk_bounds(total, max_lines, i);
            let a = i * max_lines;
            let b = (i + 1) * max_lines;
            assert(a >= 0) by (nonlinear_arith)
                requires
                    i >= 0,
                    a == i * max_lines,
            ;
            lemma_lines_before_bound(content, a);
            lemma_lines_before_bound(content, b);
            lemma_line_bound(content, a, b);
            lemma_line_starts_follow_newlines(content);
            let lo = line_bound(content, a);
            let hi = line_bound(content, b);
            assert(lo == line_starts(content)[a]);
            lemma_lines_between(content, lo, hi);
            assert(blobs[i].content == content.subrange(lo, hi));
        }
    }
}

/// The positions at which the lines of `cs` begin.
fn line_starts_of(cs: &Vec<char>) -> (starts: Vec<usize>)
    ensures
        starts@.len() == line_starts(cs@).len(),
        forall|k: int| 0 <= k < starts@.len() ==> starts@[k] as int == line_starts(cs@)[k],
{
    let mut starts: Vec<usize> = Vec::new();
    let mut i: usize = 0;
    while i < cs.len()
        invariant
            i <= cs.len(),
            starts@.len() == line_starts(cs@.take(i as int)).len(),
            forall|k: int|
                0 <= k < starts@.len() ==> starts@[k] as int == line_starts(cs@.take(i as int))[k],
        decreases cs.len() - i,
    {
        proof {
            let s = cs@.take(i as int + 1);
            assert(s.drop_last() =~= cs@.take(i as int));
            if i > 0 {
                assert(cs@.take(i as int).last() == cs@[i as int - 1]);
            }
        }
        if i == 0 || cs[i - 1] == '\n' {
            starts.push(i);
        }
        i = i + 1;
    }
    proof {
        assert(cs@.take(cs@.len() as int) =~= cs@);
    }
    starts
}

/// Splits `content`, found under `path`, into blobs of at most `max_lines`
/// lines each.
pub fn split_content(path: &str, content: &str, max_lines: usize) -> (blobs: Vec<BlobItem>)
    requires
        max_lines > 0 || content@.len() == 0,
    ensures
        blobs.deep_view() == split_model(path@, content@, max_lines as nat),
{
    let cs = chars_of(content);
    let starts = line_starts_of(&cs);
    let total: usize = starts.len();
    let mut blobs: Vec<BlobItem> = Vec::new();
    proof {
        lemma_line_starts(cs@);
    }
    if total <= max_lines {
        let ps = chars_of(path);
        blobs.push(BlobItem { path: to_string(&ps), content: to_string(&cs) });
        proof {
            assert(blobs.deep_view() =~= split_model(path@, content@, max_lines as nat));
        }
        return blobs;
    }
    let n: usize = (total - 1) / max_lines + 1;
    let n_digits = decimal_digits(n as u64);
    let mut i: usize = 0;
    while i < n
        invariant
            i <= n,
            max_lines > 0,
            total > max_lines,
            cs@ == content@,
            total == line_count(cs@),
            n == chunk_count(total as nat, max_lines as nat),
            n_digits@ == decimal(n as nat),
            starts@.len() == line_starts(cs@).len(),
            forall|k: int| 0 <= k < starts@.len() ==> starts@[k] as int == line_starts(cs@)[k],
            blobs@.len() == i,
            forall|k: int|
                0 <= k < i ==> (#[trigger] blobs@[k])@ == split_model(
                    path@,
                    content@,
                    max_lines as nat,
                )[k],
        decreases n - i,
    {
        proof {
            lemma_chunk_bounds(total as nat, max_lines as nat, i as int);
            lemma_line_starts(cs@);
            lemma_line_bound(cs@, i * max_lines, (i + 1) * max_lines);
        }
        let start_line: usize = i * max_lines;
        let from: usize = starts[start_line];
        let to: usize = if max_lines < total - start_line {
            starts[start_line + max_lines]
        } else {
            cs.len()
        };
        let chunk = string_of(&cs, from, to);
        let mut p = chars_of(path);
        push_str(&mut p, "#chunk");
        let i_digits = decimal_digits((i + 1) as u64);
        push_all(&mut p, &i_digits);
        push_str(&mut p, "of");
        push_all(&mut p, &n_digits);
        blobs.push(BlobItem { path: to_string(&p), content: chunk });
        i = i + 1;
    }
    proof {
        assert(blobs.deep_view() =~= split_model(path@, content@, max_lines as nat));
    }
    blobs
}

/// The path of the file that a blob was cut from: `path` up to its first
/// `"#chunk"`.
pub fn strip_chunk_suffix(path: &str) -> (out: String)
    ensures
        out@ == without_chunk_suffix(path@),
{
    let cs = chars_of(path);
    let marker = chars_of("#chunk");
    match find_from(&cs, &marker, 0) {
        Some(i) => {
            proof {
                let j = choose|j: int| is_first_match(path@, "#chunk"@, 0, j);
                assert(is_first_match(path@, "#chunk"@, 0, i as int));
                assert(j == i);
            }
            string_of(&cs, 0, i)
        },
        None => to_string(&cs),
    }
}

} // verus!
