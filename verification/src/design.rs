//! The results of a search in the design tables, and how they are shown.

use crate::strings::str_eq;
use crate::text::{chars_between, chars_of, decimal, decimal_digits, push_all, push_str, to_string};
use vstd::prelude::*;

verus! {

/// Bytes of a value that are shown, at most.
pub const MAX_SHOWN_BYTES: usize = 300;

/// One row of a design table: its columns by name, no name twice.
pub type Row = Vec<(String, String)>;

/// What a search in the design tables found.
pub struct SearchResult {
    pub domain: String,
    pub query: String,
    pub file: Option<String>,
    pub count: usize,
    pub results: Vec<Row>,
    pub stack: Option<String>,
    pub error: Option<String>,
}

/// The bytes that `c` takes in UTF-8.
pub open spec fn utf8_width(c: char) -> int {
    let u = c as u32;
    if u < 0x80 {
        1
    } else if u < 0x800 {
        2
    } else if u < 0x10000 {
        3
    } else {
        4
    }
}

/// The bytes that `s` takes in UTF-8.
pub open spec fn width_of(s: Seq<char>) -> int
    decreases s.len(),
{
    if s.len() == 0 {
        0
    } else {
        width_of(s.drop_last()) + utf8_width(s.last())
    }
}

/// The first `k` characters of `v` take exactly `MAX_SHOWN_BYTES` bytes.
pub open spec fn is_cut(v: Seq<char>, k: int) -> bool {
    0 <= k <= v.len() && width_of(v.take(k)) == MAX_SHOWN_BYTES
}

/// A value that can be shown: one of no more than `MAX_SHOWN_BYTES` bytes, or
/// one in which a character ends at that byte.
pub open spec fn cuts_cleanly(v: Seq<char>) -> bool {
    width_of(v) > MAX_SHOWN_BYTES ==> exists|k: int| is_cut(v, k)
}

/// A value as it is shown: whole, or its first `MAX_SHOWN_BYTES` bytes and
/// `...` behind them.
pub open spec fn shown(v: Seq<char>) -> Seq<char> {
    if width_of(v) > MAX_SHOWN_BYTES {
        v.take(choose|k: int| is_cut(v, k)) + "..."@
    } else {
        v
    }
}

/// The value of the column `key` in `row`, looked for from position `from`
/// on.
pub open spec fn value_from(row: Seq<(Seq<char>, Seq<char>)>, key: Seq<char>, from: int) -> Option<
    Seq<char>,
>
    decreases row.len() - from,
{
    if from < 0 || from >= row.len() {
        None
    } else if row[from].0 == key {
        Some(row[from].1)
    } else {
        value_from(row, key, from + 1)
    }
}

/// The columns that are shown of a row of the table `domain`, in order;
/// none for a table that is not known.
pub open spec fn shown_columns(domain: Seq<char>) -> Option<Seq<Seq<char>>> {
    if domain == "style"@ {
        Some(seq!["Style Category"@, "Type"@, "Keywords"@, "Primary Colors"@, "Effects & Animation"@, "Best For"@, "Performance"@, "Accessibility"@, "Framework Compatibility"@, "Complexity"@])
    } else if domain == "prompt"@ {
        Some(seq!["Style Category"@, "AI Prompt Keywords (Copy-Paste Ready)"@, "CSS/Technical Keywords"@, "Implementation Checklist"@])
    } else if domain == "color"@ {
        Some(seq!["Product Type"@, "Keywords"@, "Primary (Hex)"@, "Secondary (Hex)"@, "CTA (Hex)"@, "Background (Hex)"@, "Text (Hex)"@, "Border (Hex)"@, "Notes"@])
    } else if domain == "chart"@ {
        Some(seq!["Data Type"@, "Keywords"@, "Best Chart Type"@, "Secondary Options"@, "Color Guidance"@, "Accessibility Notes"@, "Library Recommendation"@, "Interactive Level"@])
    } else if domain == "landing"@ {
        Some(seq!["Pattern Name"@, "Keywords"@, "Section Order"@, "Primary CTA Placement"@, "Color Strategy"@, "Conversion Optimization"@])
    } else if domain == "product"@ {
        Some(seq!["Product Type"@, "Keywords"@, "Primary Style Recommendation"@, "Secondary Styles"@, "Landing Page Pattern"@, "Dashboard Style (if applicable)"@, "Color Palette Focus"@])
    } else if domain == "ux"@ {
        Some(seq!["Category"@, "Issue"@, "Platform"@, "Description"@, "Do"@, "Don't"@, "Code Example Good"@, "Code Example Bad"@, "Severity"@])
    } else if domain == "typography"@ {
        Some(seq!["Font Pairing Name"@, "Category"@, "Heading Font"@, "Body Font"@, "Mood/Style Keywords"@, "Best For"@, "Google Fonts URL"@, "CSS Import"@, "Tailwind Config"@, "Notes"@])
    } else if domain == "icons"@ {
        Some(seq!["Category"@, "Icon Name"@, "Keywords"@, "Library"@, "Import Code"@, "Usage"@, "Best For"@, "Style"@])
    } else if domain == "react"@ {
        Some(seq!["Category"@, "Issue"@, "Platform"@, "Description"@, "Do"@, "Don't"@, "Code Example Good"@, "Code Example Bad"@, "Severity"@])
    } else if domain == "web"@ {
        Some(seq!["Category"@, "Issue"@, "Platform"@, "Description"@, "Do"@, "Don't"@, "Code Example Good"@, "Code Example Bad"@, "Severity"@])
    } else if domain == "stack"@ {
        Some(seq!["Category"@, "Guideline"@, "Description"@, "Do"@, "Don't"@, "Code Good"@, "Code Bad"@, "Severity"@, "Docs URL"@])
    } else {
        None
    }
}

/// The line that shows the column `key` with the value `value`.
pub open spec fn column_line(key: Seq<char>, value: Seq<char>) -> Seq<char> {
    "- **"@ + key + ":** "@ + shown(value)
}

/// The lines for the first `n` of the columns `cols`, each where the row has
/// it.
pub open spec fn picked_lines(
    row: Seq<(Seq<char>, Seq<char>)>,
    cols: Seq<Seq<char>>,
    n: int,
) -> Seq<Seq<char>>
    decreases n,
{
    if n <= 0 {
        Seq::empty()
    } else {
        match value_from(row, cols[n - 1], 0) {
            Some(v) => picked_lines(row, cols, n - 1).push(column_line(cols[n - 1], v)),
            None => picked_lines(row, cols, n - 1),
        }
    }
}

/// The lines for the first `n` columns of `row`, as they stand.
pub open spec fn every_line(row: Seq<(Seq<char>, Seq<char>)>, n: int) -> Seq<Seq<char>>
    decreases n,
{
    if n <= 0 {
        Seq::empty()
    } else {
        every_line(row, n - 1).push(column_line(row[n - 1].0, row[n - 1].1))
    }
}

/// The lines that show a row of the table `domain`.
pub open spec fn row_lines(row: Seq<(Seq<char>, Seq<char>)>, domain: Seq<char>) -> Seq<Seq<char>> {
    match shown_columns(domain) {
        Some(cols) => picked_lines(row, cols, cols.len() as int),
        None => every_line(row, row.len() as int),
    }
}

/// Every value of `row` that is shown can be shown.
pub open spec fn row_shows(row: Seq<(Seq<char>, Seq<char>)>, domain: Seq<char>) -> bool {
    match shown_columns(domain) {
        Some(cols) => forall|c: int|
            0 <= c < cols.len() ==> (value_from(row, #[trigger] cols[c], 0) matches Some(v)
                ==> cuts_cleanly(v)),
        None => forall|j: int| 0 <= j < row.len() ==> cuts_cleanly((#[trigger] row[j]).1),
    }
}

/// The first `n` of `lines` with a line end between them.
pub open spec fn joined(lines: Seq<Seq<char>>, n: int) -> Seq<char>
    decreases n,
{
    if n <= 0 {
        Seq::empty()
    } else if n == 1 {
        lines[0]
    } else {
        joined(lines, n - 1) + "\n"@ + lines[n - 1]
    }
}

/// The columns that are shown of a row of the table `domain`.
pub fn output_columns(domain: &str) -> (out: Option<Vec<String>>)
    ensures
        match out {
            Some(cols) => shown_columns(domain@) == Some(cols.deep_view()),
            None => shown_columns(domain@) is None,
        },
{
    if str_eq(domain, "style") {
        let mut cols: Vec<String> = Vec::new();
        cols.push("Style Category".to_owned());
        cols.push("Type".to_owned());
        cols.push("Keywords".to_owned());
        cols.push("Primary Colors".to_owned());
        cols.push("Effects & Animation".to_owned());
        cols.push("Best For".to_owned());
        cols.push("Performance".to_owned());
        cols.push("Accessibility".to_owned());
        cols.push("Framework Compatibility".to_owned());
        cols.push("Complexity".to_owned());
        proof {
            assert(cols.deep_view() =~= seq!["Style Category"@, "Type"@, "Keywords"@, "Primary Colors"@, "Effects & Animation"@, "Best For"@, "Performance"@, "Accessibility"@, "Framework Compatibility"@, "Complexity"@]);
        }
        Some(cols)
    } else if str_eq(domain, "prompt") {
        let mut cols: Vec<String> = Vec::new();
        cols.push("Style Category".to_owned());
        cols.push("AI Prompt Keywords (Copy-Paste Ready)".to_owned());
        cols.push("CSS/Technical Keywords".to_owned());
        cols.push("Implementation Checklist".to_owned());
        proof {
            assert(cols.deep_view() =~= seq!["Style Category"@, "AI Prompt Keywords (Copy-Paste Ready)"@, "CSS/Technical Keywords"@, "Implementation Checklist"@]);
        }
        Some(cols)
    } else if str_eq(domain, "color") {
        let mut cols: Vec<String> = Vec::new();
        cols.push("Product Type".to_owned());
        cols.push("Keywords".to_owned());
        cols.push("Primary (Hex)".to_owned());
        cols.push("Secondary (Hex)".to_owned());
        cols.push("CTA (Hex)".to_owned());
        cols.push("Background (Hex)".to_owned());
        cols.push("Text (Hex)".to_owned());
        cols.push("Border (Hex)".to_owned());
        cols.push("Notes".to_owned());
        proof {
            assert(cols.deep_view() =~= seq!["Product Type"@, "Keywords"@, "Primary (Hex)"@, "Secondary (Hex)"@, "CTA (Hex)"@, "Background (Hex)"@, "Text (Hex)"@, "Border (Hex)"@, "Notes"@]);
        }
        Some(cols)
    } else if str_eq(domain, "chart") {
        let mut cols: Vec<String> = Vec::new();
        cols.push("Data Type".to_owned());
        cols.push("Keywords".to_owned());
        cols.push("Best Chart Type".to_owned());
        cols.push("Secondary Options".to_owned());
        cols.push("Color Guidance".to_owned());
        cols.push("Accessibility Notes".to_owned());
        cols.push("Library Recommendation".to_owned());
        cols.push("Interactive Level".to_owned());
        proof {
            assert(cols.deep_view() =~= seq!["Data Type"@, "Keywords"@, "Best Chart Type"@, "Secondary Options"@, "Color Guidance"@, "Accessibility Notes"@, "Library Recommendation"@, "Interactive Level"@]);
        }
        Some(cols)
    } else if str_eq(domain, "landing") {
        let mut cols: Vec<String> = Vec::new();
        cols.push("Pattern Name".to_owned());
        cols.push("Keywords".to_owned());
        cols.push("Section Order".to_owned());
        cols.push("Primary CTA Placement".to_owned());
        cols.push("Color Strategy".to_owned());
        cols.push("Conversion Optimization".to_owned());
        proof {
            assert(cols.deep_view() =~= seq!["Pattern Name"@, "Keywords"@, "Section Order"@, "Primary CTA Placement"@, "Color Strategy"@, "Conversion Optimization"@]);
        }
        Some(cols)
    } else if str_eq(domain, "product") {
        let mut cols: Vec<String> = Vec::new();
        cols.push("Product Type".to_owned());
        cols.push("Keywords".to_owned());
        cols.push("Primary Style Recommendation".to_owned());
        cols.push("Secondary Styles".to_owned());
        cols.push("Landing Page Pattern".to_owned());
        cols.push("Dashboard Style (if applicable)".to_owned());
        cols.push("Color Palette Focus".to_owned());
        proof {
            assert(cols.deep_view() =~= seq!["Product Type"@, "Keywords"@, "Primary Style Recommendation"@, "Secondary Styles"@, "Landing Page Pattern"@, "Dashboard Style (if applicable)"@, "Color Palette Focus"@]);
        }
        Some(cols)
    } else if str_eq(domain, "ux") {
        let mut cols: Vec<String> = Vec::new();
        cols.push("Category".to_owned());
        cols.push("Issue".to_owned());
        cols.push("Platform".to_owned());
        cols.push("Description".to_owned());
        cols.push("Do".to_owned());
        cols.push("Don't".to_owned());
        cols.push("Code Example Good".to_owned());
        cols.push("Code Example Bad".to_owned());
        cols.push("Severity".to_owned());
        proof {
            assert(cols.deep_view() =~= seq!["Category"@, "Issue"@, "Platform"@, "Description"@, "Do"@, "Don't"@, "Code Example Good"@, "Code Example Bad"@, "Severity"@]);
        }
        Some(cols)
    } else if str_eq(domain, "typography") {
        let mut cols: Vec<String> = Vec::new();
        cols.push("Font Pairing Name".to_owned());
        cols.push("Category".to_owned());
        cols.push("Heading Font".to_owned());
        cols.push("Body Font".to_owned());
        cols.push("Mood/Style Keywords".to_owned());
        cols.push("Best For".to_owned());
        cols.push("Google Fonts URL".to_owned());
        cols.push("CSS Import".to_owned());
        cols.push("Tailwind Config".to_owned());
        cols.push("Notes".to_owned());
        proof {
            assert(cols.deep_view() =~= seq!["Font Pairing Name"@, "Category"@, "Heading Font"@, "Body Font"@, "Mood/Style Keywords"@, "Best For"@, "Google Fonts URL"@, "CSS Import"@, "Tailwind Config"@, "Notes"@]);
        }
        Some(cols)
    } else if str_eq(domain, "icons") {
        let mut cols: Vec<String> = Vec::new();
        cols.push("Category".to_owned());
        cols.push("Icon Name".to_owned());
        cols.push("Keywords".to_owned());
        cols.push("Library".to_owned());
        cols.push("Import Code".to_owned());
        cols.push("Usage".to_owned());
        cols.push("Best For".to_owned());
        cols.push("Style".to_owned());
        proof {
            assert(cols.deep_view() =~= seq!["Category"@, "Icon Name"@, "Keywords"@, "Library"@, "Import Code"@, "Usage"@, "Best For"@, "Style"@]);
        }
        Some(cols)
    } else if str_eq(domain, "react") {
        let mut cols: Vec<String> = Vec::new();
        cols.push("Category".to_owned());
        cols.push("Issue".to_owned());
        cols.push("Platform".to_owned());
        cols.push("Description".to_owned());
        cols.push("Do".to_owned());
        cols.push("Don't".to_owned());
        cols.push("Code Example Good".to_owned());
        cols.push("Code Example Bad".to_owned());
        cols.push("Severity".to_owned());
        proof {
            assert(cols.deep_view() =~= seq!["Category"@, "Issue"@, "Platform"@, "Description"@, "Do"@, "Don't"@, "Code Example Good"@, "Code Example Bad"@, "Severity"@]);
        }
        Some(cols)
    } else if str_eq(domain, "web") {
        let mut cols: Vec<String> = Vec::new();
        cols.push("Category".to_owned());
        cols.push("Issue".to_owned());
        cols.push("Platform".to_owned());
        cols.push("Description".to_owned());
        cols.push("Do".to_owned());
        cols.push("Don't".to_owned());
        cols.push("Code Example Good".to_owned());
        cols.push("Code Example Bad".to_owned());
        cols.push("Severity".to_owned());
        proof {
            assert(cols.deep_view() =~= seq!["Category"@, "Issue"@, "Platform"@, "Description"@, "Do"@, "Don't"@, "Code Example Good"@, "Code Example Bad"@, "Severity"@]);
        }
        Some(cols)
    } else if str_eq(domain, "stack") {
        let mut cols: Vec<String> = Vec::new();
        cols.push("Category".to_owned());
        cols.push("Guideline".to_owned());
        cols.push("Description".to_owned());
        cols.push("Do".to_owned());
        cols.push("Don't".to_owned());
        cols.push("Code Good".to_owned());
        cols.push("Code Bad".to_owned());
        cols.push("Severity".to_owned());
        cols.push("Docs URL".to_owned());
        proof {
            assert(cols.deep_view() =~= seq!["Category"@, "Guideline"@, "Description"@, "Do"@, "Don't"@, "Code Good"@, "Code Bad"@, "Severity"@, "Docs URL"@]);
        }
        Some(cols)
    } else {
        None
    }
}

/// A prefix that is longer by one character takes the bytes of that
/// character more.
proof fn lemma_width_step(v: Seq<char>, k: int)
    requires
        0 <= k < v.len(),
    ensures
        width_of(v.take(k + 1)) == width_of(v.take(k)) + utf8_width(v[k]),
        utf8_width(v[k]) >= 1,
{
    assert(v.take(k + 1).drop_last() =~= v.take(k));
    assert(v.take(k + 1).last() == v[k]);
}

/// A longer prefix takes more bytes.
proof fn lemma_width_grows(v: Seq<char>, j: int, k: int)
    requires
        0 <= j <= k <= v.len(),
    ensures
        width_of(v.take(j)) + (k - j) <= width_of(v.take(k)),
        width_of(v.take(0)) == 0,
    decreases k - j,
{
    assert(v.take(0).len() == 0);
    if j < k {
        lemma_width_grows(v, j, k - 1);
        lemma_width_step(v, k - 1);
    }
}

/// The bytes that `c` takes in UTF-8.
fn char_width(c: char) -> (w: usize)
    ensures
        w == utf8_width(c),
{
    let u: u32 = c as u32;
    if u < 0x80 {
        1
    } else if u < 0x800 {
        2
    } else if u < 0x10000 {
        3
    } else {
        4
    }
}

/// Where the first `MAX_SHOWN_BYTES` bytes of `cs` end, for a text that is
/// longer: the number of characters that they make, if a character ends
/// there.
fn find_cut(cs: &Vec<char>) -> (r: (bool, Option<usize>))
    ensures
        r.0 == (width_of(cs@) > MAX_SHOWN_BYTES),
        r.0 ==> match r.1 {
            Some(k) => is_cut(cs@, k as int) && forall|j: int| is_cut(cs@, j) ==> j == k,
            None => forall|j: int| !is_cut(cs@, j),
        },
{
    let mut acc: usize = 0;
    let mut k: usize = 0;
    let mut cut: Option<usize> = None;
    proof {
        lemma_width_grows(cs@, 0, 0);
    }
    while k < cs.len() && acc <= MAX_SHOWN_BYTES
        invariant
            k <= cs@.len(),
            acc == width_of(cs@.take(k as int)),
            acc <= MAX_SHOWN_BYTES + 4,
            forall|j: int|
                0 <= j < k && width_of(cs@.take(j)) == MAX_SHOWN_BYTES ==> cut == Some(j as usize),
            cut matches Some(c) ==> c < k && is_cut(cs@, c as int),
        decreases cs.len() - k,
    {
        if acc == MAX_SHOWN_BYTES {
            cut = Some(k);
        }
        proof {
            lemma_width_step(cs@, k as int);
            assert forall|j: int|
                0 <= j < k && width_of(cs@.take(j)) == MAX_SHOWN_BYTES implies false by {
                lemma_width_grows(cs@, j, k as int);
            }
        }
        acc = acc + char_width(cs[k]);
        k = k + 1;
    }
    proof {
        lemma_width_grows(cs@, k as int, cs@.len() as int);
        assert(cs@.take(cs@.len() as int) =~= cs@);
        if acc > MAX_SHOWN_BYTES {
            assert forall|j: int| is_cut(cs@, j) implies cut == Some(j as usize) by {
                if j >= k {
                    lemma_width_grows(cs@, k as int, j);
                }
            }
        }
    }
    (acc > MAX_SHOWN_BYTES, cut)
}

/// Whether `value` can be shown.
pub fn can_show(value: &str) -> (r: bool)
    ensures
        r == cuts_cleanly(value@),
{
    let cs = chars_of(value);
    let (long, cut) = find_cut(&cs);
    !long || cut.is_some()
}

/// A value as it is shown: whole, or cut behind `MAX_SHOWN_BYTES` bytes with
/// `...` in place of the rest.
pub fn show_value(value: &str) -> (out: String)
    requires
        cuts_cleanly(value@),
    ensures
        out@ == shown(value@),
{
    let cs = chars_of(value);
    let (long, cut) = find_cut(&cs);
    match cut {
        Some(k) => {
            if long {
                let mut out = chars_between(&cs, 0, k);
                proof {
                    assert(cs@.subrange(0, k as int) =~= cs@.take(k as int));
                    let chosen = choose|j: int| is_cut(value@, j);
                    assert(is_cut(value@, chosen));
                }
                push_str(&mut out, "...");
                to_string(&out)
            } else {
                to_string(&cs)
            }
        },
        None => to_string(&cs),
    }
}

/// The two lines that head the results: of a stack, or of a table.
pub open spec fn heading(result: SearchResult) -> Seq<Seq<char>> {
    match result.stack {
        Some(stack) => seq![
            "## UI Pro Max Stack Guidelines"@,
            "**Stack:** "@ + stack@ + " | **Query:** "@ + result.query@,
        ],
        None => seq![
            "## UI Pro Max Search Results"@,
            "**Domain:** "@ + result.domain@ + " | **Query:** "@ + result.query@,
        ],
    }
}

/// The line that names the source and the number of results; an empty line
/// follows it.
pub open spec fn source_line(result: SearchResult) -> Seq<char> {
    "**Source:** "@ + (match result.file {
        Some(file) => file@,
        None => Seq::<char>::empty(),
    }) + " | **Found:** "@ + decimal(result.count as nat) + " results\n"@
}

/// The lines for the first `n` rows: for each its number, its columns, and
/// an empty line.
pub open spec fn result_lines(
    rows: Seq<Seq<(Seq<char>, Seq<char>)>>,
    domain: Seq<char>,
    n: int,
) -> Seq<Seq<char>>
    decreases n,
{
    if n <= 0 {
        Seq::empty()
    } else {
        result_lines(rows, domain, n - 1) + seq!["### Result "@ + decimal(n as nat)] + row_lines(
            rows[n - 1],
            domain,
        ) + seq![Seq::<char>::empty()]
    }
}

/// All the lines of the results.
pub open spec fn output_lines(result: SearchResult) -> Seq<Seq<char>> {
    heading(result) + seq![source_line(result)] + result_lines(
        result.results.deep_view(),
        result.domain@,
        result.results@.len() as int,
    )
}

/// The results as text: the error, where the search failed, else the lines
/// of the results.
pub open spec fn search_output(result: SearchResult) -> Seq<char> {
    match result.error {
        Some(e) => "Error: "@ + e@,
        None => joined(output_lines(result), output_lines(result).len() as int),
    }
}

/// Every value that is shown of the results can be shown.
pub open spec fn can_be_shown(result: SearchResult) -> bool {
    result.error is None ==> forall|r: int|
        0 <= r < result.results@.len() ==> row_shows(
            #[trigger] result.results.deep_view()[r],
            result.domain@,
        )
}

/// Where the column `key` stands in `row`.
fn find_column(row: &Row, key: &str) -> (r: Option<usize>)
    ensures
        match r {
            Some(i) => i < row@.len() && value_from(row.deep_view(), key@, 0) == Some(
                row@[i as int].1@,
            ),
            None => value_from(row.deep_view(), key@, 0) is None,
        },
{
    let mut i: usize = 0;
    while i < row.len()
        invariant
            i <= row@.len(),
            value_from(row.deep_view(), key@, 0) == value_from(row.deep_view(), key@, i as int),
        decreases row.len() - i,
    {
        proof {
            assert(row.deep_view()[i as int] == (row@[i as int].0@, row@[i as int].1@));
        }
        if str_eq(row[i].0.as_str(), key) {
            return Some(i);
        }
        i = i + 1;
    }
    None
}

/// The line that shows the column `key` with the value `value`.
fn column_text(key: &str, value: &str) -> (out: String)
    requires
        cuts_cleanly(value@),
    ensures
        out@ == column_line(key@, value@),
{
    let mut line = chars_of("- **");
    push_str(&mut line, key);
    push_str(&mut line, ":** ");
    push_str(&mut line, show_value(value).as_str());
    to_string(&line)
}

/// Whether every value of `row` that is shown can be shown.
pub fn can_show_row(row: &Row, domain: &str) -> (r: bool)
    ensures
        r == row_shows(row.deep_view(), domain@),
{
    match output_columns(domain) {
        Some(cols) => {
            let mut c: usize = 0;
            while c < cols.len()
                invariant
                    c <= cols@.len(),
                    shown_columns(domain@) == Some(cols.deep_view()),
                    forall|k: int|
                        0 <= k < c ==> (value_from(
                            row.deep_view(),
                            #[trigger] cols.deep_view()[k],
                            0,
                        ) matches Some(v) ==> cuts_cleanly(v)),
                decreases cols.len() - c,
            {
                proof {
                    assert(cols.deep_view()[c as int] == cols@[c as int]@);
                }
                match find_column(row, cols[c].as_str()) {
                    Some(i) => {
                        if !can_show(row[i].1.as_str()) {
                            return false;
                        }
                    },
                    None => {},
                }
                c = c + 1;
            }
            true
        },
        None => {
            let mut j: usize = 0;
            while j < row.len()
                invariant
                    j <= row@.len(),
                    shown_columns(domain@) is None,
                    forall|k: int|
                        0 <= k < j ==> cuts_cleanly((#[trigger] row.deep_view()[k]).1),
                decreases row.len() - j,
            {
                proof {
                    assert(row.deep_view()[j as int] == (row@[j as int].0@, row@[j as int].1@));
                }
                if !can_show(row[j].1.as_str()) {
                    return false;
                }
                j = j + 1;
            }
            true
        },
    }
}

/// The lines that show `row`, a row of the table `domain`: the columns of
/// that table in their order, where the row has them; every column of the
/// row where the table is not known.
pub fn lines_of_row(row: &Row, domain: &str) -> (out: Vec<String>)
    requires
        row_shows(row.deep_view(), domain@),
    ensures
        out.deep_view() == row_lines(row.deep_view(), domain@),
{
    let mut out: Vec<String> = Vec::new();
    proof {
        assert(out.deep_view() =~= Seq::<Seq<char>>::empty());
    }
    match output_columns(domain) {
        Some(cols) => {
            let mut c: usize = 0;
            while c < cols.len()
                invariant
                    c <= cols@.len(),
                    shown_columns(domain@) == Some(cols.deep_view()),
                    row_shows(row.deep_view(), domain@),
                    out.deep_view() == picked_lines(row.deep_view(), cols.deep_view(), c as int),
                decreases cols.len() - c,
            {
                let ghost before = out.deep_view();
                proof {
                    assert(cols.deep_view()[c as int] == cols@[c as int]@);
                }
                match find_column(row, cols[c].as_str()) {
                    Some(i) => {
                        let line = column_text(cols[c].as_str(), row[i].1.as_str());
                        out.push(line);
                        proof {
                            assert(out.deep_view() =~= before.push(
                                column_line(cols@[c as int]@, row@[i as int].1@),
                            ));
                        }
                    },
                    None => {},
                }
                c = c + 1;
            }
        },
        None => {
            let mut j: usize = 0;
            while j < row.len()
                invariant
                    j <= row@.len(),
                    shown_columns(domain@) is None,
                    row_shows(row.deep_view(), domain@),
                    out.deep_view() == every_line(row.deep_view(), j as int),
                decreases row.len() - j,
            {
                let ghost before = out.deep_view();
                proof {
                    assert(row.deep_view()[j as int] == (row@[j as int].0@, row@[j as int].1@));
                }
                let line = column_text(row[j].0.as_str(), row[j].1.as_str());
                out.push(line);
                proof {
                    assert(out.deep_view() =~= before.push(
                        column_line(row@[j as int].0@, row@[j as int].1@),
                    ));
                }
                j = j + 1;
            }
        },
    }
    out
}

/// The lines with a line end between them.
pub fn join_lines(lines: &Vec<String>) -> (out: String)
    ensures
        out@ == joined(lines.deep_view(), lines@.len() as int),
{
    let mut text: Vec<char> = Vec::new();
    let mut i: usize = 0;
    while i < lines.len()
        invariant
            i <= lines@.len(),
            text@ == joined(lines.deep_view(), i as int),
        decreases lines.len() - i,
    {
        proof {
            assert(lines.deep_view()[i as int] == lines@[i as int]@);
        }
        if i > 0 {
            push_str(&mut text, "\n");
        }
        push_str(&mut text, lines[i].as_str());
        proof {
            if i == 0 {
                assert(text@ =~= lines@[0]@);
            }
        }
        i = i + 1;
    }
    to_string(&text)
}

/// Whether the results can be shown.
pub fn can_format(result: &SearchResult) -> (r: bool)
    ensures
        r == can_be_shown(*result),
{
    if result.error.is_some() {
        return true;
    }
    let mut i: usize = 0;
    while i < result.results.len()
        invariant
            i <= result.results@.len(),
            result.error is None,
            forall|r: int|
                0 <= r < i ==> row_shows(#[trigger] result.results.deep_view()[r], result.domain@),
        decreases result.results.len() - i,
    {
        proof {
            assert(result.results.deep_view()[i as int] == result.results@[i as int].deep_view());
        }
        if !can_show_row(&result.results[i], result.domain.as_str()) {
            return false;
        }
        i = i + 1;
    }
    true
}

/// The results as text.
pub fn format_search_output(result: &SearchResult) -> (out: String)
    requires
        can_be_shown(*result),
    ensures
        out@ == search_output(*result),
{
    match &result.error {
        Some(e) => {
            let mut text = chars_of("Error: ");
            push_str(&mut text, e.as_str());
            return to_string(&text);
        },
        None => {},
    }
    let mut output: Vec<String> = Vec::new();
    let mut second = match &result.stack {
        Some(stack) => {
            output.push("## UI Pro Max Stack Guidelines".to_owned());
            let mut line = chars_of("**Stack:** ");
            push_str(&mut line, stack.as_str());
            line
        },
        None => {
            output.push("## UI Pro Max Search Results".to_owned());
            let mut line = chars_of("**Domain:** ");
            push_str(&mut line, result.domain.as_str());
            line
        },
    };
    push_str(&mut second, " | **Query:** ");
    push_str(&mut second, result.query.as_str());
    output.push(to_string(&second));
    let mut source = chars_of("**Source:** ");
    match &result.file {
        Some(file) => push_str(&mut source, file.as_str()),
        None => {},
    }
    push_str(&mut source, " | **Found:** ");
    let digits = decimal_digits(result.count as u64);
    push_all(&mut source, &digits);
    push_str(&mut source, " results\n");
    output.push(to_string(&source));
    let ghost head = output.deep_view();
    let ghost rows = result.results.deep_view();
    proof {
        assert(head =~= heading(*result) + seq![source_line(*result)]);
        assert(head + Seq::<Seq<char>>::empty() =~= head);
    }
    let mut i: usize = 0;
    while i < result.results.len()
        invariant
            i <= result.results@.len(),
            rows == result.results.deep_view(),
            can_be_shown(*result),
            result.error is None,
            output.deep_view() == head + result_lines(rows, result.domain@, i as int),
        decreases result.results.len() - i,
    {
        let ghost before = output.deep_view();
        proof {
            assert(rows[i as int] == result.results@[i as int].deep_view());
            assert(row_shows(rows[i as int], result.domain@));
        }
        let mut title = chars_of("### Result ");
        let number = decimal_digits((i + 1) as u64);
        push_all(&mut title, &number);
        output.push(to_string(&title));
        let lines = lines_of_row(&result.results[i], result.domain.as_str());
        let mut k: usize = 0;
        let ghost titled = output.deep_view();
        proof {
            assert(titled + lines.deep_view().take(0) =~= titled);
        }
        while k < lines.len()
            invariant
                k <= lines@.len(),
                output.deep_view() == titled + lines.deep_view().take(k as int),
            decreases lines.len() - k,
        {
            let ghost prev = output.deep_view();
            output.push(lines[k].clone());
            proof {
                assert(output.deep_view() =~= prev.push(lines@[k as int]@));
                assert(lines.deep_view().take(k as int + 1) =~= lines.deep_view().take(
                    k as int,
                ).push(lines@[k as int]@));
                assert(output.deep_view() =~= titled + lines.deep_view().take(k as int + 1));
            }
            k = k + 1;
        }
        let ghost filled = output.deep_view();
        output.push(String::new());
        proof {
            assert(lines.deep_view().take(lines@.len() as int) =~= lines.deep_view());
            assert(titled =~= before.push("### Result "@ + decimal((i + 1) as nat)));
            assert(output.deep_view() =~= filled.push(Seq::<char>::empty()));
            assert(output.deep_view() =~= head + result_lines(rows, result.domain@, i as int + 1));
        }
        i = i + 1;
    }
    join_lines(&output)
}

impl SearchResult {
    /// The result of a search that failed with `message`.
    pub fn error(domain: &str, query: &str, message: &str) -> (out: Self)
        ensures
            out.domain@ == domain@,
            out.query@ == query@,
            out.file is None,
            out.count == 0,
            out.results@.len() == 0,
            out.stack is None,
            out.error matches Some(e) && e@ == message@,
    {
        SearchResult {
            domain: domain.to_owned(),
            query: query.to_owned(),
            file: None,
            count: 0,
            results: Vec::new(),
            stack: None,
            error: Some(message.to_owned()),
        }
    }
}

} // verus!
