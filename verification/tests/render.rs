use caret::frontmatter::{first_h1, frontmatter_meta, split_frontmatter};
use caret::links::{resolve_link, slug_for};
use caret::markdown::{normalize_markdown, render_html, strip_list_separators};

#[test]
fn links_resolve() {
    assert_eq!(
        slug_for("guide/getting-started.md"),
        "guide/getting-started"
    );
    assert_eq!(slug_for("index.md"), "index");
    assert_eq!(
        resolve_link("guide/getting-started", "concepts.md"),
        "#/guide/concepts"
    );
    assert_eq!(
        resolve_link("guide/getting-started", "../index.md"),
        "#/index"
    );
    assert_eq!(resolve_link("index", "architecture.md"), "#/architecture");
    assert_eq!(resolve_link("index", "https://x.com"), "https://x.com");
    assert_eq!(resolve_link("index", "#/foo"), "#/foo");
    assert_eq!(resolve_link("index", "page.md#section"), "#/page");
}

#[test]
fn frontmatter_parses() {
    let (fm, body) = split_frontmatter("---\ntitle: Home\norder: 2\n---\n\n# Hi\n");
    assert_eq!(frontmatter_meta(&fm), (Some("Home".to_string()), 2));
    assert!(body.contains("# Hi"));
}

#[test]
fn no_frontmatter() {
    let (fm, body) = split_frontmatter("# Just a heading\n");
    assert_eq!(fm, "");
    assert_eq!(frontmatter_meta(&fm), (None, 999));
    assert_eq!(first_h1(&body), Some("Just a heading".to_string()));
}

#[test]
fn split_frontmatter_roundtrips() {
    let raw = "---\ntitle: T\norder: 1\n---\n\n# H\n\nbody\n";
    let (fm, body) = split_frontmatter(raw);
    assert_eq!(
        format!("{fm}{body}"),
        raw,
        "split must reconstruct the file"
    );
    assert!(fm.starts_with("---\n") && fm.trim_end().ends_with("---"));
    assert!(body.contains("# H"));

    let (fm2, body2) = split_frontmatter("# Just body\n");
    assert_eq!(fm2, "");
    assert_eq!(body2, "# Just body\n");
}

#[test]
fn no_end_list_artifact() {
    // adjacent lists previously left a literal `<!-- end list -->` comment
    let n = normalize_markdown("1. a\n2. b\n\n- x\n- y\n");
    assert!(
        !n.contains("end list"),
        "end-list comment must be stripped:\n{n}"
    );
    assert!(n.contains("1.") && n.contains("- x"));
    // stripping is stable
    assert_eq!(n, normalize_markdown(&n));
}

#[test]
fn normalize_is_idempotent() {
    // Once a file is normalized, later edits diff only the changed lines.
    let raw = "---\ntitle: T\norder: 1\n---\n\n# Heading\n\n- a\n- b\n\nText with **bold**.\n";
    let once = normalize_markdown(raw);
    let twice = normalize_markdown(&once);
    assert_eq!(once, twice, "normalize must be a fixed point");
    assert!(once.contains("title: T"), "frontmatter must survive");
}

// ---------------------------------------------------------------------------

#[test]
fn split_frontmatter_edges() {
    // an opening fence with no closing fence: all body
    let (fm, body) = split_frontmatter("---\ntitle: T\n");
    assert_eq!(fm, "");
    assert_eq!(body, "---\ntitle: T\n");
    // a closing fence with no newline after it: the whole file is frontmatter
    let (fm, body) = split_frontmatter("---\ntitle: T\n---");
    assert_eq!(fm, "---\ntitle: T\n---");
    assert_eq!(body, "");
    // the closing fence line may carry more text before its newline
    let (fm, body) = split_frontmatter("---\na: 1\n----x\nrest\n");
    assert_eq!(fm, "---\na: 1\n----x\n");
    assert_eq!(body, "rest\n");
    // no opening fence at the very start
    let (fm, body) = split_frontmatter(" ---\n---\n");
    assert_eq!(fm, "");
    assert_eq!(body, " ---\n---\n");
    let (fm, body) = split_frontmatter("");
    assert_eq!(fm, "");
    assert_eq!(body, "");
}

#[test]
fn frontmatter_meta_values() {
    assert_eq!(
        frontmatter_meta("---\ntitle: \"Quoted\"\norder: -3\n---\n"),
        (Some("Quoted".to_string()), -3)
    );
    assert_eq!(
        frontmatter_meta("---\ntitle: 'Single'\norder: +7\n---\n"),
        (Some("Single".to_string()), 7)
    );
    // an order that does not parse falls back to 999
    assert_eq!(frontmatter_meta("---\norder: soon\n---\n"), (None, 999));
    assert_eq!(frontmatter_meta("---\norder: 99999999999999999999\n---\n"), (None, 999));
    // the last key wins; unknown keys and lines without ':' are skipped
    assert_eq!(
        frontmatter_meta("---\ntitle: A\nnote\nauthor: me\ntitle: B\norder: 1\norder: 4\n---\n"),
        (Some("B".to_string()), 4)
    );
    // the key is trimmed; the value is cut at the first ':'
    assert_eq!(
        frontmatter_meta("  title  :  a: b  \n"),
        (Some("a: b".to_string()), 999)
    );
    assert_eq!(frontmatter_meta(""), (None, 999));
}

#[test]
fn first_h1_cases() {
    assert_eq!(first_h1("intro\n## Sub\n#  Main  \n# Later\n"), Some("Main".to_string()));
    assert_eq!(first_h1("#NoSpace\n## Two\n"), None);
    assert_eq!(first_h1("# \n"), Some(String::new()));
    assert_eq!(first_h1("text\r\n# Windows\r\n"), Some("Windows".to_string()));
    assert_eq!(first_h1(""), None);
}

#[test]
fn slug_for_cases() {
    assert_eq!(slug_for("guide\\setup.md"), "guide/setup");
    assert_eq!(slug_for("notes.markdown"), "notes.markdown");
    assert_eq!(slug_for("a.md.md"), "a.md");
    assert_eq!(slug_for(".md"), "");
}

#[test]
fn resolve_link_cases() {
    assert_eq!(resolve_link("index", "HTTPS://X.COM"), "HTTPS://X.COM");
    assert_eq!(resolve_link("index", "mailto:a@b.c"), "mailto:a@b.c");
    assert_eq!(resolve_link("index", "/abs.md"), "/abs.md");
    assert_eq!(resolve_link("index", "image.png"), "image.png");
    assert_eq!(resolve_link("a/b/c", "./d.MD"), "#/a/b/d");
    assert_eq!(resolve_link("index", "Page.MD"), "#/Page");
    assert_eq!(resolve_link("index", "Mixed.Md#x"), "#/Mixed");
    assert_eq!(resolve_link("a/b/c", "../../../../x.md"), "#/x");
    assert_eq!(resolve_link("a/b", "x//y.md"), "#/a/x/y");
    assert_eq!(resolve_link("index", ".md"), "#/");
}

#[test]
fn strip_list_separators_cases() {
    // nothing to strip: unchanged, even without a final newline
    assert_eq!(strip_list_separators("a\n\n\n\nb"), "a\n\n\n\nb");
    assert_eq!(
        strip_list_separators("- a\n\n<!-- end list -->\n\n- b\n"),
        "- a\n\n- b\n"
    );
    assert_eq!(
        strip_list_separators("  <!-- end list -->  \nx"),
        "x\n"
    );
}

#[test]
fn render_html_rewrites_links() {
    let html = render_html("---\ntitle: T\n---\n\n[next](other.md) [ext](https://e.com)\n", "guide/a");
    assert!(html.contains("href=\"#/guide/other\""));
    assert!(html.contains("href=\"https://e.com\""));
    assert!(!html.contains("title: T"));
}

#[test]
fn normalize_rewrites_markdown() {
    // the write path re-emits canonical CommonMark
    let n = normalize_markdown("Heading\n=======\n\n* a\n* b\n");
    assert_eq!(n, "# Heading\n\n- a\n- b\n");
}

#[test]
fn order_parses_like_i64() {
    assert_eq!(frontmatter_meta("order: -9223372036854775808").1, i64::MIN);
    assert_eq!(frontmatter_meta("order: 9223372036854775807").1, i64::MAX);
    assert_eq!(frontmatter_meta("order: 9223372036854775808").1, 999);
    assert_eq!(frontmatter_meta("order: +").1, 999);
    assert_eq!(frontmatter_meta("order: 1_000").1, 999);
    assert_eq!(frontmatter_meta("order: '12'").1, 12);
    assert_eq!(frontmatter_meta("order: -0").1, 0);
}
