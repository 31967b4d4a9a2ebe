//! The word lists of the design search: Chinese phrases with the English
//! tokens they stand for, English synonyms, hints at a field of design, and
//! the phrases that by themselves ask for design advice.

use vstd::prelude::*;

verus! {

/// A phrase or a key with the tokens that it brings along.
pub type Expansions = Vec<(String, Vec<String>)>;

/// Chinese phrases, each with the English tokens that it stands for.
pub open spec fn zh_expansions() -> Seq<(Seq<char>, Seq<Seq<char>>)> {
    seq![
        ("科技感"@, seq!["futuristic"@, "tech"@, "modern"@]),
        ("登录"@, seq!["login"@, "auth"@, "form"@]),
        ("美化"@, seq!["beautify"@, "design"@, "style"@]),
        ("配色"@, seq!["color"@, "palette"@]),
        ("字体"@, seq!["font"@, "typography"@]),
        ("排版"@, seq!["typography"@, "layout"@]),
        ("图标"@, seq!["icon"@, "icons"@]),
        ("仪表盘"@, seq!["dashboard"@]),
        ("落地页"@, seq!["landing"@, "page"@]),
        ("优雅"@, seq!["elegant"@, "minimal"@]),
        ("简约"@, seq!["minimal"@, "clean"@]),
        ("暗色"@, seq!["dark"@, "mode"@]),
        ("动画"@, seq!["animation"@, "motion"@]),
        ("无障碍"@, seq!["accessibility"@, "wcag"@]),
        ("图表"@, seq!["chart"@, "visualization"@]),
    ]
}

/// Chinese phrases, each with the English tokens that it stands for.
pub fn zh_to_en_expansions() -> (out: Expansions)
    ensures
        out.deep_view() == zh_expansions(),
{
    let mut out: Expansions = Vec::new();
    let mut inner: Vec<String> = Vec::new();
    inner.push("futuristic".to_owned());
    inner.push("tech".to_owned());
    inner.push("modern".to_owned());
    proof {
        assert(inner.deep_view() =~= seq!["futuristic"@, "tech"@, "modern"@]);
    }
    out.push(("科技感".to_owned(), inner));
    let mut inner: Vec<String> = Vec::new();
    inner.push("login".to_owned());
    inner.push("auth".to_owned());
    inner.push("form".to_owned());
    proof {
        assert(inner.deep_view() =~= seq!["login"@, "auth"@, "form"@]);
    }
    out.push(("登录".to_owned(), inner));
    let mut inner: Vec<String> = Vec::new();
    inner.push("beautify".to_owned());
    inner.push("design".to_owned());
    inner.push("style".to_owned());
    proof {
        assert(inner.deep_view() =~= seq!["beautify"@, "design"@, "style"@]);
    }
    out.push(("美化".to_owned(), inner));
    let mut inner: Vec<String> = Vec::new();
    inner.push("color".to_owned());
    inner.push("palette".to_owned());
    proof {
        assert(inner.deep_view() =~= seq!["color"@, "palette"@]);
    }
    out.push(("配色".to_owned(), inner));
    let mut inner: Vec<String> = Vec::new();
    inner.push("font".to_owned());
    inner.push("typography".to_owned());
    proof {
        assert(inner.deep_view() =~= seq!["font"@, "typography"@]);
    }
    out.push(("字体".to_owned(), inner));
    let mut inner: Vec<String> = Vec::new();
    inner.push("typography".to_owned());
    inner.push("layout".to_owned());
    proof {
        assert(inner.deep_view() =~= seq!["typography"@, "layout"@]);
    }
    out.push(("排版".to_owned(), inner));
    let mut inner: Vec<String> = Vec::new();
    inner.push("icon".to_owned());
    inner.push("icons".to_owned());
    proof {
        assert(inner.deep_view() =~= seq!["icon"@, "icons"@]);
    }
    out.push(("图标".to_owned(), inner));
    let mut inner: Vec<String> = Vec::new();
    inner.push("dashboard".to_owned());
    proof {
        assert(inner.deep_view() =~= seq!["dashboard"@]);
    }
    out.push(("仪表盘".to_owned(), inner));
    let mut inner: Vec<String> = Vec::new();
    inner.push("landing".to_owned());
    inner.push("page".to_owned());
    proof {
        assert(inner.deep_view() =~= seq!["landing"@, "page"@]);
    }
    out.push(("落地页".to_owned(), inner));
    let mut inner: Vec<String> = Vec::new();
    inner.push("elegant".to_owned());
    inner.push("minimal".to_owned());
    proof {
        assert(inner.deep_view() =~= seq!["elegant"@, "minimal"@]);
    }
    out.push(("优雅".to_owned(), inner));
    let mut inner: Vec<String> = Vec::new();
    inner.push("minimal".to_owned());
    inner.push("clean".to_owned());
    proof {
        assert(inner.deep_view() =~= seq!["minimal"@, "clean"@]);
    }
    out.push(("简约".to_owned(), inner));
    let mut inner: Vec<String> = Vec::new();
    inner.push("dark".to_owned());
    inner.push("mode".to_owned());
    proof {
        assert(inner.deep_view() =~= seq!["dark"@, "mode"@]);
    }
    out.push(("暗色".to_owned(), inner));
    let mut inner: Vec<String> = Vec::new();
    inner.push("animation".to_owned());
    inner.push("motion".to_owned());
    proof {
        assert(inner.deep_view() =~= seq!["animation"@, "motion"@]);
    }
    out.push(("动画".to_owned(), inner));
    let mut inner: Vec<String> = Vec::new();
    inner.push("accessibility".to_owned());
    inner.push("wcag".to_owned());
    proof {
        assert(inner.deep_view() =~= seq!["accessibility"@, "wcag"@]);
    }
    out.push(("无障碍".to_owned(), inner));
    let mut inner: Vec<String> = Vec::new();
    inner.push("chart".to_owned());
    inner.push("visualization".to_owned());
    proof {
        assert(inner.deep_view() =~= seq!["chart"@, "visualization"@]);
    }
    out.push(("图表".to_owned(), inner));
    proof {
        assert(out.deep_view() =~= zh_expansions());
    }
    out
}

/// English tokens, each with the tokens that mean much the same.
pub open spec fn synonyms() -> Seq<(Seq<char>, Seq<Seq<char>>)> {
    seq![
        ("login"@, seq!["signin"@, "auth"@]),
        ("dashboard"@, seq!["admin"@, "analytics"@]),
        ("modern"@, seq!["contemporary"@, "clean"@]),
        ("minimal"@, seq!["minimalism"@, "clean"@]),
        ("dark"@, seq!["night"@]),
        ("button"@, seq!["cta"@]),
        ("color"@, seq!["palette"@]),
        ("font"@, seq!["typography"@]),
        ("icon"@, seq!["icons"@]),
        ("chart"@, seq!["graph"@]),
    ]
}

/// English tokens, each with the tokens that mean much the same.
pub fn en_synonyms() -> (out: Expansions)
    ensures
        out.deep_view() == synonyms(),
{
    let mut out: Expansions = Vec::new();
    let mut inner: Vec<String> = Vec::new();
    inner.push("signin".to_owned());
    inner.push("auth".to_owned());
    proof {
        assert(inner.deep_view() =~= seq!["signin"@, "auth"@]);
    }
    out.push(("login".to_owned(), inner));
    let mut inner: Vec<String> = Vec::new();
    inner.push("admin".to_owned());
    inner.push("analytics".to_owned());
    proof {
        assert(inner.deep_view() =~= seq!["admin"@, "analytics"@]);
    }
    out.push(("dashboard".to_owned(), inner));
    let mut inner: Vec<String> = Vec::new();
    inner.push("contemporary".to_owned());
    inner.push("clean".to_owned());
    proof {
        assert(inner.deep_view() =~= seq!["contemporary"@, "clean"@]);
    }
    out.push(("modern".to_owned(), inner));
    let mut inner: Vec<String> = Vec::new();
    inner.push("minimalism".to_owned());
    inner.push("clean".to_owned());
    proof {
        assert(inner.deep_view() =~= seq!["minimalism"@, "clean"@]);
    }
    out.push(("minimal".to_owned(), inner));
    let mut inner: Vec<String> = Vec::new();
    inner.push("night".to_owned());
    proof {
        assert(inner.deep_view() =~= seq!["night"@]);
    }
    out.push(("dark".to_owned(), inner));
    let mut inner: Vec<String> = Vec::new();
    inner.push("cta".to_owned());
    proof {
        assert(inner.deep_view() =~= seq!["cta"@]);
    }
    out.push(("button".to_owned(), inner));
    let mut inner: Vec<String> = Vec::new();
    inner.push("palette".to_owned());
    proof {
        assert(inner.deep_view() =~= seq!["palette"@]);
    }
    out.push(("color".to_owned(), inner));
    let mut inner: Vec<String> = Vec::new();
    inner.push("typography".to_owned());
    proof {
        assert(inner.deep_view() =~= seq!["typography"@]);
    }
    out.push(("font".to_owned(), inner));
    let mut inner: Vec<String> = Vec::new();
    inner.push("icons".to_owned());
    proof {
        assert(inner.deep_view() =~= seq!["icons"@]);
    }
    out.push(("icon".to_owned(), inner));
    let mut inner: Vec<String> = Vec::new();
    inner.push("graph".to_owned());
    proof {
        assert(inner.deep_view() =~= seq!["graph"@]);
    }
    out.push(("chart".to_owned(), inner));
    proof {
        assert(out.deep_view() =~= synonyms());
    }
    out
}

/// The fields of design, each with the words that point to it.
pub open spec fn field_keywords() -> Seq<(Seq<char>, Seq<Seq<char>>)> {
    seq![
        ("color"@, seq!["color"@, "palette"@, "hex"@, "#"@, "rgb"@]),
        ("chart"@, seq!["chart"@, "graph"@, "visualization"@, "trend"@, "bar"@, "pie"@, "scatter"@, "heatmap"@, "funnel"@]),
        ("landing"@, seq!["landing"@, "page"@, "cta"@, "conversion"@, "hero"@, "testimonial"@, "pricing"@, "section"@]),
        ("product"@, seq!["saas"@, "ecommerce"@, "e-commerce"@, "fintech"@, "healthcare"@, "gaming"@, "portfolio"@, "crypto"@, "dashboard"@]),
        ("prompt"@, seq!["prompt"@, "css"@, "implementation"@, "variable"@, "checklist"@, "tailwind"@]),
        ("style"@, seq!["style"@, "design"@, "ui"@, "minimalism"@, "glassmorphism"@, "neumorphism"@, "brutalism"@, "dark mode"@, "flat"@, "aurora"@]),
        ("ux"@, seq!["ux"@, "usability"@, "accessibility"@, "wcag"@, "touch"@, "scroll"@, "animation"@, "keyboard"@, "navigation"@, "mobile"@]),
        ("typography"@, seq!["font"@, "typography"@, "heading"@, "serif"@, "sans"@]),
        ("icons"@, seq!["icon"@, "icons"@, "lucide"@, "heroicons"@, "symbol"@, "glyph"@, "pictogram"@, "svg icon"@]),
        ("react"@, seq!["react"@, "next.js"@, "nextjs"@, "suspense"@, "memo"@, "usecallback"@, "useeffect"@, "rerender"@, "bundle"@, "waterfall"@, "barrel"@, "dynamic import"@, "rsc"@, "server component"@]),
        ("web"@, seq!["aria"@, "focus"@, "outline"@, "semantic"@, "virtualize"@, "autocomplete"@, "form"@, "input type"@, "preconnect"@]),
    ]
}

/// The fields of design, each with the words that point to it.
pub fn domain_keywords() -> (out: Expansions)
    ensures
        out.deep_view() == field_keywords(),
{
    let mut out: Expansions = Vec::new();
    let mut inner: Vec<String> = Vec::new();
    inner.push("color".to_owned());
    inner.push("palette".to_owned());
    inner.push("hex".to_owned());
    inner.push("#".to_owned());
    inner.push("rgb".to_owned());
    proof {
        assert(inner.deep_view() =~= seq!["color"@, "palette"@, "hex"@, "#"@, "rgb"@]);
    }
    out.push(("color".to_owned(), inner));
    let mut inner: Vec<String> = Vec::new();
    inner.push("chart".to_owned());
    inner.push("graph".to_owned());
    inner.push("visualization".to_owned());
    inner.push("trend".to_owned());
    inner.push("bar".to_owned());
    inner.push("pie".to_owned());
    inner.push("scatter".to_owned());
    inner.push("heatmap".to_owned());
    inner.push("funnel".to_owned());
    proof {
        assert(inner.deep_view() =~= seq!["chart"@, "graph"@, "visualization"@, "trend"@, "bar"@, "pie"@, "scatter"@, "heatmap"@, "funnel"@]);
    }
    out.push(("chart".to_owned(), inner));
    let mut inner: Vec<String> = Vec::new();
    inner.push("landing".to_owned());
    inner.push("page".to_owned());
    inner.push("cta".to_owned());
    inner.push("conversion".to_owned());
    inner.push("hero".to_owned());
    inner.push("testimonial".to_owned());
    inner.push("pricing".to_owned());
    inner.push("section".to_owned());
    proof {
        assert(inner.deep_view() =~= seq!["landing"@, "page"@, "cta"@, "conversion"@, "hero"@, "testimonial"@, "pricing"@, "section"@]);
    }
    out.push(("landing".to_owned(), inner));
    let mut inner: Vec<String> = Vec::new();
    inner.push("saas".to_owned());
    inner.push("ecommerce".to_owned());
    inner.push("e-commerce".to_owned());
    inner.push("fintech".to_owned());
    inner.push("healthcare".to_owned());
    inner.push("gaming".to_owned());
    inner.push("portfolio".to_owned());
    inner.push("crypto".to_owned());
    inner.push("dashboard".to_owned());
    proof {
        assert(inner.deep_view() =~= seq!["saas"@, "ecommerce"@, "e-commerce"@, "fintech"@, "healthcare"@, "gaming"@, "portfolio"@, "crypto"@, "dashboard"@]);
    }
    out.push(("product".to_owned(), inner));
    let mut inner: Vec<String> = Vec::new();
    inner.push("prompt".to_owned());
    inner.push("css".to_owned());
    inner.push("implementation".to_owned());
    inner.push("variable".to_owned());
    inner.push("checklist".to_owned());
    inner.push("tailwind".to_owned());
    proof {
        assert(inner.deep_view() =~= seq!["prompt"@, "css"@, "implementation"@, "variable"@, "checklist"@, "tailwind"@]);
    }
    out.push(("prompt".to_owned(), inner));
    let mut inner: Vec<String> = Vec::new();
    inner.push("style".to_owned());
    inner.push("design".to_owned());
    inner.push("ui".to_owned());
    inner.push("minimalism".to_owned());
    inner.push("glassmorphism".to_owned());
    inner.push("neumorphism".to_owned());
    inner.push("brutalism".to_owned());
    inner.push("dark mode".to_owned());
    inner.push("flat".to_owned());
    inner.push("aurora".to_owned());
    proof {
        assert(inner.deep_view() =~= seq!["style"@, "design"@, "ui"@, "minimalism"@, "glassmorphism"@, "neumorphism"@, "brutalism"@, "dark mode"@, "flat"@, "aurora"@]);
    }
    out.push(("style".to_owned(), inner));
    let mut inner: Vec<String> = Vec::new();
    inner.push("ux".to_owned());
    inner.push("usability".to_owned());
    inner.push("accessibility".to_owned());
    inner.push("wcag".to_owned());
    inner.push("touch".to_owned());
    inner.push("scroll".to_owned());
    inner.push("animation".to_owned());
    inner.push("keyboard".to_owned());
    inner.push("navigation".to_owned());
    inner.push("mobile".to_owned());
    proof {
        assert(inner.deep_view() =~= seq!["ux"@, "usability"@, "accessibility"@, "wcag"@, "touch"@, "scroll"@, "animation"@, "keyboard"@, "navigation"@, "mobile"@]);
    }
    out.push(("ux".to_owned(), inner));
    let mut inner: Vec<String> = Vec::new();
    inner.push("font".to_owned());
    inner.push("typography".to_owned());
    inner.push("heading".to_owned());
    inner.push("serif".to_owned());
    inner.push("sans".to_owned());
    proof {
        assert(inner.deep_view() =~= seq!["font"@, "typography"@, "heading"@, "serif"@, "sans"@]);
    }
    out.push(("typography".to_owned(), inner));
    let mut inner: Vec<String> = Vec::new();
    inner.push("icon".to_owned());
    inner.push("icons".to_owned());
    inner.push("lucide".to_owned());
    inner.push("heroicons".to_owned());
    inner.push("symbol".to_owned());
    inner.push("glyph".to_owned());
    inner.push("pictogram".to_owned());
    inner.push("svg icon".to_owned());
    proof {
        assert(inner.deep_view() =~= seq!["icon"@, "icons"@, "lucide"@, "heroicons"@, "symbol"@, "glyph"@, "pictogram"@, "svg icon"@]);
    }
    out.push(("icons".to_owned(), inner));
    let mut inner: Vec<String> = Vec::new();
    inner.push("react".to_owned());
    inner.push("next.js".to_owned());
    inner.push("nextjs".to_owned());
    inner.push("suspense".to_owned());
    inner.push("memo".to_owned());
    inner.push("usecallback".to_owned());
    inner.push("useeffect".to_owned());
    inner.push("rerender".to_owned());
    inner.push("bundle".to_owned());
    inner.push("waterfall".to_owned());
    inner.push("barrel".to_owned());
    inner.push("dynamic import".to_owned());
    inner.push("rsc".to_owned());
    inner.push("server component".to_owned());
    proof {
        assert(inner.deep_view() =~= seq!["react"@, "next.js"@, "nextjs"@, "suspense"@, "memo"@, "usecallback"@, "useeffect"@, "rerender"@, "bundle"@, "waterfall"@, "barrel"@, "dynamic import"@, "rsc"@, "server component"@]);
    }
    out.push(("react".to_owned(), inner));
    let mut inner: Vec<String> = Vec::new();
    inner.push("aria".to_owned());
    inner.push("focus".to_owned());
    inner.push("outline".to_owned());
    inner.push("semantic".to_owned());
    inner.push("virtualize".to_owned());
    inner.push("autocomplete".to_owned());
    inner.push("form".to_owned());
    inner.push("input type".to_owned());
    inner.push("preconnect".to_owned());
    proof {
        assert(inner.deep_view() =~= seq!["aria"@, "focus"@, "outline"@, "semantic"@, "virtualize"@, "autocomplete"@, "form"@, "input type"@, "preconnect"@]);
    }
    out.push(("web".to_owned(), inner));
    proof {
        assert(out.deep_view() =~= field_keywords());
    }
    out
}

/// Phrases that point to a field of design, each with its field.
pub open spec fn field_hints() -> Seq<(Seq<char>, Seq<char>)> {
    seq![
        ("配色"@, "color"@),
        ("颜色"@, "color"@),
        ("色彩"@, "color"@),
        ("字体"@, "typography"@),
        ("排版"@, "typography"@),
        ("图标"@, "icons"@),
        ("图表"@, "chart"@),
        ("落地页"@, "landing"@),
        ("无障碍"@, "ux"@),
        ("交互"@, "ux"@),
        ("风格"@, "style"@),
        ("dark mode"@, "style"@),
    ]
}

/// Phrases that point to a field of design, each with its field.
pub fn zh_domain_hints() -> (out: Vec<(String, String)>)
    ensures
        out.deep_view() == field_hints(),
{
    let mut out: Vec<(String, String)> = Vec::new();
    out.push(("配色".to_owned(), "color".to_owned()));
    out.push(("颜色".to_owned(), "color".to_owned()));
    out.push(("色彩".to_owned(), "color".to_owned()));
    out.push(("字体".to_owned(), "typography".to_owned()));
    out.push(("排版".to_owned(), "typography".to_owned()));
    out.push(("图标".to_owned(), "icons".to_owned()));
    out.push(("图表".to_owned(), "chart".to_owned()));
    out.push(("落地页".to_owned(), "landing".to_owned()));
    out.push(("无障碍".to_owned(), "ux".to_owned()));
    out.push(("交互".to_owned(), "ux".to_owned()));
    out.push(("风格".to_owned(), "style".to_owned()));
    out.push(("dark mode".to_owned(), "style".to_owned()));
    proof {
        assert(out.deep_view() =~= field_hints());
    }
    out
}

/// Phrases that by themselves ask for design advice.
pub open spec fn strong_triggers() -> Seq<Seq<char>> {
    seq![
        "美化"@,
        "界面"@,
        "登录"@,
        "配色"@,
        "排版"@,
        "字体"@,
        "图标"@,
        "落地页"@,
        "仪表盘"@,
        "样式"@,
        "布局"@,
        "交互"@,
    ]
}

/// Phrases that by themselves ask for design advice.
pub fn zh_uiux_strong_triggers() -> (out: Vec<String>)
    ensures
        out.deep_view() == strong_triggers(),
{
    let mut out: Vec<String> = Vec::new();
    out.push("美化".to_owned());
    out.push("界面".to_owned());
    out.push("登录".to_owned());
    out.push("配色".to_owned());
    out.push("排版".to_owned());
    out.push("字体".to_owned());
    out.push("图标".to_owned());
    out.push("落地页".to_owned());
    out.push("仪表盘".to_owned());
    out.push("样式".to_owned());
    out.push("布局".to_owned());
    out.push("交互".to_owned());
    proof {
        assert(out.deep_view() =~= strong_triggers());
    }
    out
}

/// Words that are never keywords.
pub open spec fn stopwords() -> Seq<Seq<char>> {
    seq![
        "and"@,
        "or"@,
        "the"@,
        "with"@,
        "for"@,
        "from"@,
        "into"@,
        "that"@,
        "this"@,
        "these"@,
        "those"@,
        "best"@,
        "use"@,
        "using"@,
        "used"@,
        "good"@,
        "bad"@,
        "new"@,
        "all"@,
        "any"@,
        "your"@,
        "their"@,
    ]
}

/// Words that are never keywords.
pub fn keyword_stopwords() -> (out: Vec<String>)
    ensures
        out.deep_view() == stopwords(),
{
    let mut out: Vec<String> = Vec::new();
    out.push("and".to_owned());
    out.push("or".to_owned());
    out.push("the".to_owned());
    out.push("with".to_owned());
    out.push("for".to_owned());
    out.push("from".to_owned());
    out.push("into".to_owned());
    out.push("that".to_owned());
    out.push("this".to_owned());
    out.push("these".to_owned());
    out.push("those".to_owned());
    out.push("best".to_owned());
    out.push("use".to_owned());
    out.push("using".to_owned());
    out.push("used".to_owned());
    out.push("good".to_owned());
    out.push("bad".to_owned());
    out.push("new".to_owned());
    out.push("all".to_owned());
    out.push("any".to_owned());
    out.push("your".to_owned());
    out.push("their".to_owned());
    proof {
        assert(out.deep_view() =~= stopwords());
    }
    out
}

/// The endings that are taken off an English token, the first that fits.
pub open spec fn stem_suffixes() -> Seq<Seq<char>> {
    seq![
        "ness"@,
        "ment"@,
        "tion"@,
        "sion"@,
        "able"@,
        "ible"@,
        "ingly"@,
        "edly"@,
        "ing"@,
        "ed"@,
        "ly"@,
        "ity"@,
    ]
}

/// The endings that are taken off an English token, the first that fits.
pub fn suffix_list() -> (out: Vec<String>)
    ensures
        out.deep_view() == stem_suffixes(),
{
    let mut out: Vec<String> = Vec::new();
    out.push("ness".to_owned());
    out.push("ment".to_owned());
    out.push("tion".to_owned());
    out.push("sion".to_owned());
    out.push("able".to_owned());
    out.push("ible".to_owned());
    out.push("ingly".to_owned());
    out.push("edly".to_owned());
    out.push("ing".to_owned());
    out.push("ed".to_owned());
    out.push("ly".to_owned());
    out.push("ity".to_owned());
    proof {
        assert(out.deep_view() =~= stem_suffixes());
    }
    out
}

/// The names of the stacks and of the fields of design, and the words that always count as keywords.
pub open spec fn named_keywords() -> Seq<Seq<char>> {
    seq![
        "html-tailwind"@,
        "react"@,
        "nextjs"@,
        "vue"@,
        "nuxtjs"@,
        "nuxt-ui"@,
        "svelte"@,
        "swiftui"@,
        "react-native"@,
        "flutter"@,
        "shadcn"@,
        "jetpack-compose"@,
        "style"@,
        "prompt"@,
        "color"@,
        "chart"@,
        "landing"@,
        "product"@,
        "ux"@,
        "typography"@,
        "icons"@,
        "react"@,
        "web"@,
        "ui"@,
        "ux"@,
        "uiux"@,
        "front-end"@,
        "frontend"@,
        "landing"@,
        "dashboard"@,
        "design"@,
        "component"@,
    ]
}

/// The names of the stacks and of the fields of design, and the words that always count as keywords.
pub fn keyword_names() -> (out: Vec<String>)
    ensures
        out.deep_view() == named_keywords(),
{
    let mut out: Vec<String> = Vec::new();
    out.push("html-tailwind".to_owned());
    out.push("react".to_owned());
    out.push("nextjs".to_owned());
    out.push("vue".to_owned());
    out.push("nuxtjs".to_owned());
    out.push("nuxt-ui".to_owned());
    out.push("svelte".to_owned());
    out.push("swiftui".to_owned());
    out.push("react-native".to_owned());
    out.push("flutter".to_owned());
    out.push("shadcn".to_owned());
    out.push("jetpack-compose".to_owned());
    out.push("style".to_owned());
    out.push("prompt".to_owned());
    out.push("color".to_owned());
    out.push("chart".to_owned());
    out.push("landing".to_owned());
    out.push("product".to_owned());
    out.push("ux".to_owned());
    out.push("typography".to_owned());
    out.push("icons".to_owned());
    out.push("react".to_owned());
    out.push("web".to_owned());
    out.push("ui".to_owned());
    out.push("ux".to_owned());
    out.push("uiux".to_owned());
    out.push("front-end".to_owned());
    out.push("frontend".to_owned());
    out.push("landing".to_owned());
    out.push("dashboard".to_owned());
    out.push("design".to_owned());
    out.push("component".to_owned());
    proof {
        assert(out.deep_view() =~= named_keywords());
    }
    out
}

} // verus!
