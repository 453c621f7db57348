use caret::diagrams::{
    diagram_ids, is_referenced, referenced_ids, scene_diagram_id, svg_diagram_id,
};
use caret::json::{body_json, err_json, html_json, slug_json, OK_JSON};
use caret::pages::{collect_pages, has_md_extension, ignored, page_from_source, sort_pages, str_lt, Page};
use caret::site::{build_html, build_nav, editor_assets, esc_attr, esc_html, pages_json, welcome_page};

fn page(slug: &str, title: &str, order: i64) -> Page {
    Page {
        slug: slug.to_string(),
        title: title.to_string(),
        order,
        html: String::new(),
        frontmatter: String::new(),
        body: String::new(),
    }
}

#[test]
fn escaping() {
    assert_eq!(esc_html("a & <b> \"c\""), "a &amp; &lt;b&gt; \"c\"");
    assert_eq!(esc_attr("a & <b> \"c\""), "a &amp; &lt;b&gt; &quot;c&quot;");
    assert_eq!(esc_html("&lt;"), "&amp;lt;");
}

#[test]
fn nav_rows_indent_by_depth() {
    let nav: String = build_nav(&vec![page("index", "Home", 0), page("a/b", "<B>", 1)])
        .into_iter()
        .collect();
    let rows: Vec<&str> = nav.split('\n').collect();
    assert_eq!(rows.len(), 2);
    assert!(rows[0].starts_with("<a href=\"#/index\" data-slug=\"index\" class=\"navrow\" style=\"padding-left:10px\">"));
    assert!(rows[0].ends_with("<span class=\"lbl\">Home</span></a>"));
    assert!(rows[1].contains("style=\"padding-left:24px\""));
    assert!(rows[1].ends_with("<span class=\"lbl\">&lt;B&gt;</span></a>"));
}

#[test]
fn pages_json_matches_field_order() {
    let mut p = page("a", "T \"q\"", -4);
    p.html = "<p>x</p>".to_string();
    p.frontmatter = "---\n".to_string();
    p.body = "b".to_string();
    let json: String = pages_json(&vec![p, page("b", "U", 7)]).into_iter().collect();
    assert_eq!(
        json,
        "[{\"slug\":\"a\",\"title\":\"T \\\"q\\\"\",\"order\":-4,\"html\":\"<p>x</p>\",\"frontmatter\":\"---\\n\",\"body\":\"b\"},{\"slug\":\"b\",\"title\":\"U\",\"order\":7,\"html\":\"\",\"frontmatter\":\"\",\"body\":\"\"}]"
    );
    let empty: String = pages_json(&vec![]).into_iter().collect();
    assert_eq!(empty, "[]");
}

#[test]
fn build_html_fills_every_placeholder() {
    let mut p = page("index", "Home", 0);
    p.html = "<script>alert(1)</script>".to_string();
    let read_only = build_html(&vec![p], false, "light", "{\"k\":1}", "ASSETS");
    assert!(!read_only.contains("__THEME__") && !read_only.contains("__NAV__"));
    assert!(!read_only.contains("__DATA__") && !read_only.contains("__SETTINGS__"));
    assert!(!read_only.contains("__HELP_HTML__") && !read_only.contains("__EDITABLE__"));
    assert!(!read_only.contains("__EDITOR_ASSETS__") && !read_only.contains("__EDITOR_JS__"));
    assert!(read_only.contains("\\u003cscript>alert(1)\\u003c/script>"));
    assert!(!read_only.contains("<script>alert(1)"));
    assert!(read_only.contains("{\"k\":1}"));
    assert!(read_only.contains("data-slug=\"index\""));
    assert!(read_only.contains("light"));
    assert!(!read_only.contains("ASSETS"));
    assert!(read_only.contains("const EDITABLE = false;"));
    let editable = build_html(&vec![page("index", "Home", 0)], true, "dark", "{}", "ASSETS");
    assert!(editable.contains("ASSETS"));
    assert!(editable.contains("const EDITABLE = true;"));
    assert!(editable.contains("function saveCurrent()"));
}

#[test]
fn editor_assets_neutralize_closing_tags() {
    assert_eq!(
        editor_assets("a</style>b", "c</script>d"),
        "<style>a<\\/style>b</style>\n<script>c<\\/script>d</script>"
    );
}

#[test]
fn welcome_page_is_normalized() {
    let w = welcome_page();
    assert!(w.starts_with("---\ntitle: Welcome\norder: 0\n---\n"));
    assert!(w.contains("New here?"));
    assert!(w.contains("# Using caret"));
}

#[test]
fn pages_sort_by_order_then_slug() {
    let mut ps = vec![
        page("b", "B", 2),
        page("z", "Z", 1),
        page("a", "A", 2),
        page("m", "M", 999),
        page("c", "C", -1),
    ];
    sort_pages(&mut ps);
    let slugs: Vec<&str> = ps.iter().map(|p| p.slug.as_str()).collect();
    assert_eq!(slugs, vec!["c", "z", "a", "b", "m"]);
    assert!(str_lt("a", "b") && str_lt("a", "ab") && !str_lt("b", "b") && !str_lt("b", "a"));
}

#[test]
fn page_from_source_fields() {
    let raw = "---\ntitle: Setup\norder: 3\n---\n\n# Heading\n\nSee [x](other.md).\n";
    let p = page_from_source("guide/setup.md", raw);
    assert_eq!(p.slug, "guide/setup");
    assert_eq!(p.title, "Setup");
    assert_eq!(p.order, 3);
    assert_eq!(p.frontmatter, "---\ntitle: Setup\norder: 3\n---\n");
    assert_eq!(p.body, "\n# Heading\n\nSee [x](other.md).\n");
    assert!(p.html.contains("href=\"#/guide/other\""));
    // title from the first heading, then from the slug
    assert_eq!(page_from_source("a.md", "# Top\n").title, "Top");
    let bare = page_from_source("notes/b.md", "text\n");
    assert_eq!(bare.title, "notes/b");
    assert_eq!(bare.order, 999);
}

#[test]
fn collect_pages_sorts() {
    let sources = vec![
        ("b.md".to_string(), "# B\n".to_string()),
        ("a.md".to_string(), "---\norder: 5\n---\n# A\n".to_string()),
        ("index.md".to_string(), "---\norder: 0\n---\n# Home\n".to_string()),
    ];
    let ps = collect_pages(&sources);
    let slugs: Vec<&str> = ps.iter().map(|p| p.slug.as_str()).collect();
    assert_eq!(slugs, vec!["index", "a", "b"]);
}

#[test]
fn which_files_are_pages() {
    assert!(has_md_extension("a.md"));
    assert!(has_md_extension("x.tar.md"));
    assert!(!has_md_extension(".md"));
    assert!(!has_md_extension("a.MD"));
    assert!(!has_md_extension("a.mdx"));
    let comps = |s: &str| s.split('/').map(|c| c.to_string()).collect::<Vec<_>>();
    assert!(ignored(&comps("proj/node_modules/x.md")));
    assert!(ignored(&comps(".git/x.md")));
    assert!(ignored(&comps("a/target/b/c.md")));
    assert!(ignored(&comps("dist/x.md")));
    assert!(!ignored(&comps("docs/guide/x.md")));
    assert!(!ignored(&comps("targets/x.md")));
}

#[test]
fn diagram_references() {
    let md = "![d](img/diagram-abc_1.svg) text diagram-.svg diagram-x-y.svgz diagram-q.png";
    assert_eq!(diagram_ids(md), vec!["abc_1".to_string(), "x-y".to_string()]);
    let refs = referenced_ids(&vec![md.to_string(), "diagram-z.svg".to_string()]);
    assert_eq!(refs, vec!["abc_1".to_string(), "x-y".to_string(), "z".to_string()]);
    assert!(is_referenced(&refs, "z"));
    assert!(!is_referenced(&refs, "q"));
    assert_eq!(svg_diagram_id("diagram-abc.svg"), Some("abc".to_string()));
    assert_eq!(svg_diagram_id("diagram-.svg"), Some(String::new()));
    assert_eq!(svg_diagram_id("photo.svg"), None);
    assert_eq!(svg_diagram_id("diagram-a.png"), None);
    assert_eq!(scene_diagram_id("abc.excalidraw"), Some("abc".to_string()));
    assert_eq!(scene_diagram_id(".excalidraw"), None);
    assert_eq!(scene_diagram_id("abc.json"), None);
}

#[test]
fn json_answers() {
    assert_eq!(OK_JSON, "{\"ok\":true}");
    assert_eq!(err_json("invalid slug"), "{\"ok\":false,\"error\":\"invalid slug\"}");
    assert_eq!(slug_json("a/b"), "{\"ok\":true,\"slug\":\"a/b\"}");
    assert_eq!(html_json("<p>\"</p>"), "{\"html\":\"<p>\\\"</p>\",\"ok\":true}");
    assert_eq!(body_json("x\n"), "{\"body\":\"x\\n\",\"ok\":true}");
}

#[test]
fn orphan_diagrams_are_found() {
    let docs = vec!["![d](img/diagram-kept.svg)".to_string()];
    let scenes = vec![
        "kept.excalidraw".to_string(),
        "gone.excalidraw".to_string(),
        "notes.txt".to_string(),
    ];
    let imgs = vec![
        "diagram-kept.svg".to_string(),
        "diagram-gone.svg".to_string(),
        "photo.png".to_string(),
    ];
    let (s, i) = caret::diagrams::orphan_diagram_files(&docs, &scenes, &imgs);
    assert_eq!(s, vec!["gone.excalidraw".to_string()]);
    assert_eq!(i, vec!["diagram-gone.svg".to_string()]);
    let (s, i) = caret::diagrams::orphan_diagram_files(&vec![], &scenes, &imgs);
    assert_eq!(s.len(), 2);
    assert_eq!(i.len(), 2);
}

#[test]
fn sorting_is_stable_for_ties() {
    let mut ps = vec![
        page("a", "First", 1),
        page("b", "Other", 0),
        page("a", "Second", 1),
        page("a", "Third", 1),
    ];
    sort_pages(&mut ps);
    let titles: Vec<&str> = ps.iter().map(|p| p.title.as_str()).collect();
    assert_eq!(titles, vec!["Other", "First", "Second", "Third"]);
}

#[test]
fn json_escapes_like_serde_json() {
    assert_eq!(
        err_json("a\"b\\c\u{8}\u{c}\n\r\t\u{1}\u{1f}/\u{7f}é"),
        "{\"ok\":false,\"error\":\"a\\\"b\\\\c\\b\\f\\n\\r\\t\\u0001\\u001f/\u{7f}é\"}"
    );
    assert_eq!(slug_json("My Project"), "{\"ok\":true,\"slug\":\"My Project\"}");
}

#[test]
fn second_collection_pass_finds_nothing() {
    let docs = vec!["diagram-a.svg".to_string()];
    let scenes = vec!["a.excalidraw".to_string(), "b.excalidraw".to_string()];
    let imgs = vec!["diagram-a.svg".to_string(), "diagram-c.svg".to_string(), "x.png".to_string()];
    let (s, i) = caret::diagrams::orphan_diagram_files(&docs, &scenes, &imgs);
    let left_scenes: Vec<String> = scenes.iter().filter(|n| !s.contains(n)).cloned().collect();
    let left_imgs: Vec<String> = imgs.iter().filter(|n| !i.contains(n)).cloned().collect();
    let (s2, i2) = caret::diagrams::orphan_diagram_files(&docs, &left_scenes, &left_imgs);
    assert!(s2.is_empty() && i2.is_empty());
    assert_eq!(left_scenes, vec!["a.excalidraw".to_string()]);
    assert_eq!(left_imgs, vec!["diagram-a.svg".to_string(), "x.png".to_string()]);
}
