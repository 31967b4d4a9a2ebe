use acemcp_index::chunker::{split_content, strip_chunk_suffix};

fn lines(n: usize) -> String {
    let mut s = String::new();
    for i in 0..n {
        s.push_str(&format!("line {}\n", i));
    }
    s
}

#[test]
fn short_file_is_one_blob_under_its_own_path() {
    let blobs = split_content("src/a.rs", "fn main() {}\n", 800);
    assert_eq!(blobs.len(), 1);
    assert_eq!(blobs[0].path, "src/a.rs");
    assert_eq!(blobs[0].content, "fn main() {}\n");
}

#[test]
fn file_at_the_limit_is_one_blob() {
    let text = lines(800);
    let blobs = split_content("a.txt", &text, 800);
    assert_eq!(blobs.len(), 1);
    assert_eq!(blobs[0].content, text);
}

#[test]
fn empty_file_is_one_empty_blob() {
    let blobs = split_content("empty.rs", "", 800);
    assert_eq!(blobs.len(), 1);
    assert_eq!(blobs[0].path, "empty.rs");
    assert_eq!(blobs[0].content, "");
    let blobs = split_content("empty.rs", "", 0);
    assert_eq!(blobs.len(), 1);
}

#[test]
fn long_file_is_cut_into_numbered_chunks() {
    let text = lines(2500);
    let blobs = split_content("file.ext", &text, 800);
    assert_eq!(blobs.len(), 4);
    assert_eq!(blobs[0].path, "file.ext#chunk1of4");
    assert_eq!(blobs[1].path, "file.ext#chunk2of4");
    assert_eq!(blobs[2].path, "file.ext#chunk3of4");
    assert_eq!(blobs[3].path, "file.ext#chunk4of4");
    assert_eq!(blobs[0].content.lines().count(), 800);
    assert_eq!(blobs[1].content.lines().count(), 800);
    assert_eq!(blobs[2].content.lines().count(), 800);
    assert_eq!(blobs[3].content.lines().count(), 100);
}

#[test]
fn chunks_joined_give_the_file_back() {
    for (count, max) in [(1usize, 1usize), (5, 2), (6, 2), (7, 3), (801, 800), (2500, 800)] {
        let mut text = lines(count);
        text.push_str("last line without newline");
        let blobs = split_content("f", &text, max);
        let total = count + 1;
        let expected = if total <= max { 1 } else { (total + max - 1) / max };
        assert_eq!(blobs.len(), expected);
        let joined: String = blobs.iter().map(|b| b.content.as_str()).collect();
        assert_eq!(joined, text);
    }
}

#[test]
fn chunks_never_cut_a_line() {
    let blobs = split_content("t", "a\nbb\nccc\ndddd\neeeee", 2);
    assert_eq!(blobs.len(), 3);
    assert_eq!(blobs[0].content, "a\nbb\n");
    assert_eq!(blobs[1].content, "ccc\ndddd\n");
    assert_eq!(blobs[2].content, "eeeee");
    assert_eq!(blobs[2].path, "t#chunk3of3");
}

#[test]
fn chunks_keep_other_scripts_whole() {
    let blobs = split_content("文档.md", "第一行\n第二行\n第三行\n", 1);
    assert_eq!(blobs.len(), 3);
    assert_eq!(blobs[1].path, "文档.md#chunk2of3");
    assert_eq!(blobs[1].content, "第二行\n");
}

#[test]
fn ten_and_more_chunks_are_numbered_in_decimal() {
    let text = lines(12);
    let blobs = split_content("n", &text, 1);
    assert_eq!(blobs.len(), 12);
    assert_eq!(blobs[9].path, "n#chunk10of12");
    assert_eq!(blobs[11].path, "n#chunk12of12");
}

#[test]
fn chunk_suffix_is_taken_off() {
    assert_eq!(strip_chunk_suffix("src/a.rs#chunk2of4"), "src/a.rs");
    assert_eq!(strip_chunk_suffix("src/a.rs"), "src/a.rs");
    assert_eq!(strip_chunk_suffix("a#chunk1of2#chunk1of3"), "a");
    assert_eq!(strip_chunk_suffix("#chunk"), "");
    assert_eq!(strip_chunk_suffix(""), "");
}

#[test]
fn a_copy_of_a_blob_is_equal() {
    let blobs = split_content("p", "c\n", 5);
    let copy = blobs[0].duplicate();
    assert_eq!(copy.path, "p");
    assert_eq!(copy.content, "c\n");
}
