//! Measures on texts that are whole numbers: the edit distance of two texts,
//! the gap between a character and its nearest namesake, and the plain form
//! in which texts are compared.

use crate::text::{ascii_lower, chars_of, is_space, is_whitespace, to_ascii_lower, to_string, trim, trimmed};
use vstd::prelude::*;

verus! {

/// The measures on texts.
pub struct TextSimilarity;

/// The least of three numbers.
pub open spec fn min3(x: int, y: int, z: int) -> int {
    if x <= y && x <= z {
        x
    } else if y <= z {
        y
    } else {
        z
    }
}

/// The edit distance of `a` and `b`: the least number of characters to take
/// out, put in or exchange that turns one into the other.
pub open spec fn edit_distance(a: Seq<char>, b: Seq<char>) -> int
    decreases a.len() + b.len(),
{
    if a.len() == 0 {
        b.len() as int
    } else if b.len() == 0 {
        a.len() as int
    } else {
        let cost: int = if a.last() == b.last() {
            0
        } else {
            1
        };
        min3(
            edit_distance(a.drop_last(), b) + 1,
            edit_distance(a, b.drop_last()) + 1,
            edit_distance(a.drop_last(), b.drop_last()) + cost,
        )
    }
}

/// A mark of punctuation, Western or Chinese, that is left out when texts
/// are compared.
pub open spec fn is_punct(c: char) -> bool {
    c == '.' || c == ',' || c == '!' || c == '?' || c == ';' || c == ':' || c == '"' || c == '\''
        || c == '(' || c == ')' || c == '[' || c == ']' || c == '{' || c == '}' || c == '。' || c
        == '，' || c == '！' || c == '？' || c == '；' || c == '：' || c == '\u{201C}' || c
        == '\u{201D}' || c == '\u{2018}' || c == '\u{2019}' || c == '（' || c == '）' || c == '【'
        || c == '】' || c == '、' || c == '·'
}

/// The first `n` characters of `text` with punctuation left out, each run
/// of white space as one space (none at the start), and ASCII letters in
/// lower case; and whether the last character kept is a space or nothing is
/// kept yet.
pub open spec fn squeezed(text: Seq<char>, n: int) -> (Seq<char>, bool)
    decreases n,
{
    if n <= 0 {
        (Seq::empty(), true)
    } else {
        let (out, spaced) = squeezed(text, n - 1);
        let c = text[n - 1];
        if is_space(c) {
            if spaced {
                (out, true)
            } else {
                (out.push(' '), true)
            }
        } else if is_punct(c) {
            (out, spaced)
        } else {
            (out.push(ascii_lower(c)), false)
        }
    }
}

/// The plain form of `text`.
pub open spec fn plain_form(text: Seq<char>) -> Seq<char> {
    trimmed(squeezed(text, text.len() as int).0)
}

/// The distance from `pos` to `i`.
pub open spec fn gap(i: int, pos: int) -> int {
    if i > pos {
        i - pos
    } else {
        pos - i
    }
}

/// The edit distance of two texts is at most the length of the longer one.
pub proof fn lemma_edit_distance_bounds(a: Seq<char>, b: Seq<char>)
    ensures
        0 <= edit_distance(a, b),
        edit_distance(a, b) <= a.len() || edit_distance(a, b) <= b.len(),
    decreases a.len() + b.len(),
{
    if a.len() > 0 && b.len() > 0 {
        lemma_edit_distance_bounds(a.drop_last(), b);
        lemma_edit_distance_bounds(a, b.drop_last());
        lemma_edit_distance_bounds(a.drop_last(), b.drop_last());
    }
}

/// A text has distance 0 to itself.
pub proof fn lemma_edit_distance_to_itself(a: Seq<char>)
    ensures
        edit_distance(a, a) == 0,
    decreases a.len(),
{
    if a.len() > 0 {
        lemma_edit_distance_to_itself(a.drop_last());
        lemma_edit_distance_bounds(a.drop_last(), a);
        lemma_edit_distance_bounds(a, a.drop_last());
    }
}

impl TextSimilarity {
    /// The edit distance of `s1` and `s2`, counted in characters.
    pub fn levenshtein_distance(s1: &str, s2: &str) -> (d: usize)
        ensures
            d == edit_distance(s1@, s2@),
    {
        let a = chars_of(s1);
        let b = chars_of(s2);
        let n = a.len();
        let m = b.len();
        if n == 0 {
            return m;
        }
        if m == 0 {
            return n;
        }
        let mut prev: Vec<usize> = Vec::new();
        let mut curr: Vec<usize> = Vec::new();
        let mut j: usize = 0;
        while j < m
            invariant
                j <= m,
                m == b@.len(),
                prev@.len() == j,
                forall|k: int| 0 <= k < j ==> prev@[k] == k,
            decreases m - j,
        {
            prev.push(j);
            j = j + 1;
        }
        prev.push(m);
        proof {
            assert forall|k: int| 0 <= k <= m implies prev@[k] == edit_distance(
                a@.take(0),
                b@.take(k),
            ) by {
                assert(a@.take(0).len() == 0);
            }
        }
        let mut i: usize = 0;
        while i < n
            invariant
                i <= n,
                n == a@.len(),
                m == b@.len(),
                m > 0,
                prev@.len() == m + 1,
                forall|k: int|
                    0 <= k <= m ==> prev@[k] == edit_distance(a@.take(i as int), b@.take(k)),
            decreases n - i,
        {
            curr.clear();
            curr.push(i + 1);
            proof {
                assert(b@.take(0).len() == 0);
                assert(a@.take(i as int + 1).len() == i + 1);
            }
            let mut j: usize = 0;
            while j < m
                invariant
                    j <= m,
                    i < n,
                    n == a@.len(),
                    m == b@.len(),
                    prev@.len() == m + 1,
                    curr@.len() == j + 1,
                    forall|k: int|
                        0 <= k <= m ==> prev@[k] == edit_distance(a@.take(i as int), b@.take(k)),
                    forall|k: int|
                        0 <= k <= j ==> curr@[k] == edit_distance(
                            a@.take(i as int + 1),
                            b@.take(k),
                        ),
                decreases m - j,
            {
                let cost: u128 = if a[i] == b[j] {
                    0
                } else {
                    1
                };
                let delete: u128 = prev[j + 1] as u128 + 1;
                let insert: u128 = curr[j] as u128 + 1;
                let exchange: u128 = prev[j] as u128 + cost;
                let best: u128 = if delete <= insert && delete <= exchange {
                    delete
                } else if insert <= exchange {
                    insert
                } else {
                    exchange
                };
                proof {
                    let x = a@.take(i as int + 1);
                    let y = b@.take(j as int + 1);
                    assert(x.drop_last() =~= a@.take(i as int));
                    assert(y.drop_last() =~= b@.take(j as int));
                    assert(x.last() == a@[i as int]);
                    assert(y.last() == b@[j as int]);
                    assert(best == edit_distance(x, y));
                    lemma_edit_distance_bounds(x, y);
                }
                curr.push(best as usize);
                j = j + 1;
            }
            std::mem::swap(&mut prev, &mut curr);
            i = i + 1;
        }
        proof {
            assert(a@.take(n as int) =~= a@);
            assert(b@.take(m as int) =~= b@);
        }
        prev[m]
    }

    /// The gap between the position `pos` and the nearest position of
    /// `second` that holds the character `first[pos]`, and no more than the
    /// length of `second`, which is also the answer where no position holds
    /// it.
    pub fn get_distance(first: &Vec<char>, second: &Vec<char>, pos: usize) -> (d: usize)
        requires
            pos < first@.len(),
        ensures
            d <= second@.len(),
            forall|i: int|
                0 <= i < second@.len() && second@[i] == first@[pos as int] ==> d <= gap(
                    i,
                    pos as int,
                ),
            d == second@.len() || exists|i: int|
                0 <= i < second@.len() && second@[i] == first@[pos as int] && d == gap(
                    i,
                    pos as int,
                ),
    {
        let ch = first[pos];
        let mut least: usize = second.len();
        let mut i: usize = 0;
        while i < second.len()
            invariant
                i <= second@.len(),
                pos < first@.len(),
                ch == first@[pos as int],
                least <= second@.len(),
                forall|k: int| 0 <= k < i && second@[k] == ch ==> least <= gap(k, pos as int),
                least == second@.len() || exists|k: int|
                    0 <= k < i && second@[k] == ch && least == gap(k, pos as int),
            decreases second.len() - i,
        {
            if second[i] == ch {
                let dist = if i > pos {
                    i - pos
                } else {
                    pos - i
                };
                if dist < least {
                    least = dist;
                    proof {
                        assert(second@[i as int] == ch && least == gap(i as int, pos as int));
                    }
                }
            }
            i = i + 1;
        }
        least
    }

    /// Whether `ch` is a mark of punctuation that is left out when texts are
    /// compared.
    pub fn is_punctuation(ch: char) -> (r: bool)
        ensures
            r == is_punct(ch),
    {
        ch == '.' || ch == ',' || ch == '!' || ch == '?' || ch == ';' || ch == ':' || ch == '"'
            || ch == '\'' || ch == '(' || ch == ')' || ch == '[' || ch == ']' || ch == '{' || ch
            == '}' || ch == '。' || ch == '，' || ch == '！' || ch == '？' || ch == '；' || ch
            == '：' || ch == '\u{201C}' || ch == '\u{201D}' || ch == '\u{2018}' || ch
            == '\u{2019}' || ch == '（' || ch == '）' || ch == '【' || ch == '】' || ch == '、'
            || ch == '·'
    }

    /// The plain form of `text`, in which texts are compared: without
    /// punctuation, with one space for each run of white space and none at
    /// either end, and with ASCII letters in lower case.
    pub fn normalize(text: &str) -> (out: String)
        ensures
            out@ == plain_form(text@),
    {
        let cs = chars_of(text);
        let mut result: Vec<char> = Vec::new();
        let mut prev_is_space = true;
        let mut i: usize = 0;
        while i < cs.len()
            invariant
                i <= cs@.len(),
                cs@ == text@,
                (result@, prev_is_space) == squeezed(text@, i as int),
            decreases cs.len() - i,
        {
            let ch = cs[i];
            if is_whitespace(ch) {
                if !prev_is_space {
                    result.push(' ');
                    prev_is_space = true;
                }
            } else if TextSimilarity::is_punctuation(ch) {
            } else {
                result.push(to_ascii_lower(ch));
                prev_is_space = false;
            }
            i = i + 1;
        }
        to_string(&trim(&result))
    }
}

} // verus!
