use acemcp_index::icon::{build_download_url, build_preview_url, IconTool};
use acemcp_index::similarity::TextSimilarity;
use acemcp_index::skills::{normalize_skill_name, split_cli_options, strip_quotes};

fn chars(s: &str) -> Vec<char> {
    s.chars().collect()
}

#[test]
fn edit_distance_counts_changes() {
    assert_eq!(TextSimilarity::levenshtein_distance("", ""), 0);
    assert_eq!(TextSimilarity::levenshtein_distance("abc", ""), 3);
    assert_eq!(TextSimilarity::levenshtein_distance("", "ab"), 2);
    assert_eq!(TextSimilarity::levenshtein_distance("kitten", "sitting"), 3);
    assert_eq!(TextSimilarity::levenshtein_distance("flaw", "lawn"), 2);
    assert_eq!(TextSimilarity::levenshtein_distance("same", "same"), 0);
    assert_eq!(TextSimilarity::levenshtein_distance("a", "b"), 1);
    assert_eq!(TextSimilarity::levenshtein_distance("使用KISS原则", "使用 KISS 原则"), 2);
    assert_eq!(TextSimilarity::levenshtein_distance("glasomorphism", "glassmorphism"), 1);
}

#[test]
fn gap_to_the_nearest_namesake() {
    assert_eq!(TextSimilarity::get_distance(&chars("abc"), &chars("abc"), 1), 0);
    assert_eq!(TextSimilarity::get_distance(&chars("abc"), &chars("cab"), 0), 1);
    assert_eq!(TextSimilarity::get_distance(&chars("abc"), &chars("xyz"), 0), 3);
    assert_eq!(TextSimilarity::get_distance(&chars("abc"), &chars(""), 2), 0);
    assert_eq!(TextSimilarity::get_distance(&chars("aXa"), &chars("a...a"), 2), 2);
    assert_eq!(TextSimilarity::get_distance(&chars("......a"), &chars("a"), 6), 1);
}

#[test]
fn punctuation_of_both_scripts() {
    for c in ".,!?;:\"'()[]{}。，！？；：“”‘’（）【】、·".chars() {
        assert!(TextSimilarity::is_punctuation(c), "{}", c);
    }
    for c in "a0 -_/中\n".chars() {
        assert!(!TextSimilarity::is_punctuation(c), "{}", c);
    }
}

#[test]
fn plain_form_of_a_text() {
    assert_eq!(TextSimilarity::normalize("  Hello,   World!  "), "hello world");
    assert_eq!(TextSimilarity::normalize("使用 KISS 原则。"), "使用 kiss 原则");
    assert_eq!(TextSimilarity::normalize("a\t\n b"), "a b");
    assert_eq!(TextSimilarity::normalize("a , b"), "a b");
    assert_eq!(TextSimilarity::normalize("...!!!"), "");
    assert_eq!(TextSimilarity::normalize(""), "");
    assert_eq!(TextSimilarity::normalize("ÀB"), "Àb");
    assert_eq!(TextSimilarity::normalize("x ."), "x");
}

#[test]
fn icon_addresses() {
    assert_eq!(build_preview_url(12345), "https://at.alicdn.com/t/c/font_12345_preview.svg");
    assert_eq!(
        build_download_url(7, "png", None),
        "https://www.iconfont.cn/api/icon/downloadIcon?id=7&type=png&size=64"
    );
    assert_eq!(
        build_download_url(7, "png", Some(128)),
        "https://www.iconfont.cn/api/icon/downloadIcon?id=7&type=png&size=128"
    );
    assert_eq!(
        build_download_url(7, "svg", Some(128)),
        "https://www.iconfont.cn/api/icon/downloadIcon?id=7&type=svg"
    );
    assert_eq!(
        build_download_url(0, "PNG", None),
        "https://www.iconfont.cn/api/icon/downloadIcon?id=0&type=svg"
    );
}

#[test]
fn skill_names_become_tool_names() {
    assert_eq!(normalize_skill_name("UI UX Pro_Max"), "ui-ux-pro-max");
    assert_eq!(normalize_skill_name("my.skill!"), "myskill");
    assert_eq!(normalize_skill_name("技能"), "skill");
    assert_eq!(normalize_skill_name(""), "skill");
    assert_eq!(normalize_skill_name("a\tb\u{a0}c"), "a-bc");
    assert_eq!(normalize_skill_name("--"), "--");
}

#[test]
fn quotes_come_off_in_pairs() {
    assert_eq!(strip_quotes("  \"hello\"  "), "hello");
    assert_eq!(strip_quotes("'a b'"), "a b");
    assert_eq!(strip_quotes("\"mixed'"), "\"mixed'");
    assert_eq!(strip_quotes("plain"), "plain");
    assert_eq!(strip_quotes("\"\""), "");
    assert_eq!(strip_quotes("   "), "");
    assert_eq!(strip_quotes("\"a"), "\"a");
}

#[test]
fn options_are_split_at_commas() {
    assert_eq!(split_cli_options("a, b ,c"), vec!["a", "b", "c"]);
    assert_eq!(split_cli_options(" one option "), vec!["one option"]);
    assert_eq!(split_cli_options("a,,b, ,"), vec!["a", "b"]);
    assert!(split_cli_options("").is_empty());
    assert!(split_cli_options(" , ,").is_empty());
    assert_eq!(split_cli_options("是,否"), vec!["是", "否"]);
}

#[test]
fn icon_workshop_shows_in_the_list_of_tools() {
    let info = IconTool::get_tool_info();
    assert_eq!(info.id, "icon");
    assert_eq!(info.name, "图标工坊");
    assert_eq!(info.description, "搜索和管理 Iconfont 图标，支持预览、复制和下载");
    assert_eq!(info.icon, "i-carbon-image");
    assert_eq!(info.icon_bg, "bg-purple-500/10");
    assert_eq!(info.dark_icon_bg, "dark:bg-purple-500/20");
    assert!(info.enabled && info.can_disable && info.has_config);
}
