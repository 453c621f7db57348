use caret::serve::{
    check_image_url, content_type, removes_parent, diagram_files, image_filename, image_update, new_page,
    page_file, route, sanitize_id, sanitize_md_rel, secret_request, static_rel_path, titleize,
    save_outcome, HttpMethod, Route, ServeError,
};

#[test]
fn image_filename_is_safe_and_stable() {
    let a = image_filename("https://ex.com/a/photo.png?v=2");
    // idempotent for the same URL
    assert_eq!(a, image_filename("https://ex.com/a/photo.png?v=2"));
    assert!(a.ends_with("-photo.png"));
    // different URLs don't collide even with the same basename
    assert_ne!(a, image_filename("https://other.com/x/photo.png"));
    // no path traversal / unsafe chars survive
    let weird = image_filename("https://ex.com/../../etc/pa ss?wd");
    assert!(!weird.contains('/') && !weird.contains("..") && !weird.contains(' '));
    // extensionless URL gets a best-effort extension
    assert!(image_filename("https://ex.com/avatar").contains('.'));
}

// ---------------------------------------------------------------------------

#[test]
fn image_filename_shape() {
    let a = image_filename("https://ex.com/a/photo.png?v=2");
    // sixteen lowercase hex digits, a dash, then the cleaned basename
    assert_eq!(a.len(), 16 + "-photo.png".len());
    assert!(a[..16].chars().all(|c| c.is_ascii_hexdigit() && !c.is_ascii_uppercase()));
    assert!(image_filename("https://ex.com/dir/").ends_with("-image.png"));
    assert!(image_filename("https://ex.com/.").ends_with("-image.png"));
    assert!(image_filename("https://ex.com/a b#c.png").ends_with("-a-b.png"));
    assert!(image_filename("https://ex.com/x.jpeg#frag").ends_with("-x.jpeg"));
}

#[test]
fn routes() {
    assert_eq!(route(HttpMethod::Get, "/"), Route::Index);
    assert_eq!(route(HttpMethod::Get, "/index.html"), Route::Index);
    assert_eq!(route(HttpMethod::Get, "/api/settings"), Route::GetSettings);
    assert_eq!(route(HttpMethod::Post, "/api/settings"), Route::PostSettings);
    assert_eq!(route(HttpMethod::Post, "/api/save"), Route::Save);
    assert_eq!(route(HttpMethod::Post, "/api/secret"), Route::Secret);
    assert_eq!(route(HttpMethod::Post, "/api/save-image"), Route::SaveImage);
    assert_eq!(route(HttpMethod::Post, "/api/save-diagram"), Route::SaveDiagram);
    assert_eq!(route(HttpMethod::Post, "/api/create-page"), Route::CreatePage);
    assert_eq!(route(HttpMethod::Post, "/api/delete-page"), Route::DeletePage);
    assert_eq!(route(HttpMethod::Post, "/api/rename-page"), Route::RenamePage);
    assert_eq!(route(HttpMethod::Get, "/_excalidraw.js"), Route::ExcalidrawJs);
    assert_eq!(route(HttpMethod::Get, "/_excalidraw.css"), Route::ExcalidrawCss);
    assert_eq!(route(HttpMethod::Get, "/img/a.png"), Route::Static);
    assert_eq!(route(HttpMethod::Get, "/api/save"), Route::Static);
    assert_eq!(route(HttpMethod::Post, "/"), Route::NotFound);
    assert_eq!(route(HttpMethod::Other, "/"), Route::NotFound);
}

#[test]
fn page_file_rejects_traversal() {
    assert_eq!(page_file("guide/setup"), Ok("guide/setup.md".to_string()));
    assert_eq!(page_file(""), Err(ServeError::InvalidSlug));
    assert_eq!(page_file("/etc/passwd"), Err(ServeError::InvalidSlug));
    assert_eq!(page_file("../secret"), Err(ServeError::InvalidSlug));
    assert_eq!(page_file("a/./b"), Err(ServeError::InvalidSlug));
    assert_eq!(page_file("a//b"), Err(ServeError::InvalidSlug));
    assert_eq!(page_file("a/"), Err(ServeError::InvalidSlug));
    assert_eq!(ServeError::InvalidSlug.message(), "invalid slug");
}

#[test]
fn sanitize_md_rel_cases() {
    assert_eq!(
        sanitize_md_rel("  guide/setup.md "),
        Ok(("guide/setup.md".to_string(), "guide/setup".to_string()))
    );
    // absolute paths are refused
    assert_eq!(sanitize_md_rel("  /guide/setup.md "), Err(ServeError::InvalidPagePath));
    assert_eq!(sanitize_md_rel("/etc/passwd"), Err(ServeError::InvalidPagePath));
    assert_eq!(sanitize_md_rel("//x"), Err(ServeError::InvalidPagePath));
    assert_eq!(
        sanitize_md_rel("Notes.MD"),
        Ok(("Notes.md".to_string(), "Notes".to_string()))
    );
    assert_eq!(
        sanitize_md_rel("a/b/"),
        Ok(("a/b.md".to_string(), "a/b".to_string()))
    );
    assert_eq!(sanitize_md_rel(""), Err(ServeError::InvalidPagePath));
    assert_eq!(sanitize_md_rel(".md"), Err(ServeError::InvalidPagePath));
    assert_eq!(sanitize_md_rel("../x"), Err(ServeError::InvalidPagePath));
    assert_eq!(sanitize_md_rel("a//b"), Err(ServeError::InvalidPagePath));
    assert_eq!(sanitize_md_rel("a/./b"), Err(ServeError::InvalidPagePath));
    assert_eq!(ServeError::InvalidPagePath.message(), "invalid page path");
}

#[test]
fn titleize_cases() {
    assert_eq!(titleize("guide/getting-started"), "Getting Started");
    assert_eq!(titleize("my_notes--draft"), "My Notes Draft");
    assert_eq!(titleize("api"), "Api");
    assert_eq!(titleize("x/"), "");
    assert_eq!(titleize("9lives"), "9lives");
}

#[test]
fn new_page_content() {
    let (rel, slug, content) = new_page("guide/first-steps").unwrap();
    assert_eq!(rel, "guide/first-steps.md");
    assert_eq!(slug, "guide/first-steps");
    assert_eq!(content, "---\ntitle: First Steps\n---\n\n# First Steps\n");
    assert_eq!(new_page("../x"), Err(ServeError::InvalidPagePath));
    assert_eq!(new_page("/x"), Err(ServeError::InvalidPagePath));
}

#[test]
fn sanitize_id_cases() {
    assert_eq!(sanitize_id("ab-C_9"), Ok("ab-C_9".to_string()));
    assert_eq!(sanitize_id("../x y"), Ok("xy".to_string()));
    assert_eq!(sanitize_id("../"), Err(ServeError::InvalidDiagramId));
    assert_eq!(sanitize_id(""), Err(ServeError::InvalidDiagramId));
    assert_eq!(ServeError::InvalidDiagramId.message(), "invalid diagram id");
    assert_eq!(
        diagram_files("d1"),
        ("d1.excalidraw".to_string(), "diagram-d1.svg".to_string())
    );
}

#[test]
fn secret_request_cases() {
    assert_eq!(
        secret_request("  anthropic ", " sk-1 "),
        Ok(("anthropic".to_string(), "sk-1".to_string()))
    );
    assert_eq!(secret_request("  ", "v"), Err(ServeError::MissingSecretName));
    assert_eq!(ServeError::MissingSecretName.message(), "missing secret name");
}

#[test]
fn image_url_check() {
    assert_eq!(check_image_url("http://a/b.png"), Ok(()));
    assert_eq!(check_image_url("https://a/b.png"), Ok(()));
    assert_eq!(check_image_url("ftp://a/b.png"), Err(ServeError::NotHttpImage));
    assert_eq!(check_image_url("HTTP://a/b.png"), Err(ServeError::NotHttpImage));
    assert_eq!(
        ServeError::NotHttpImage.message(),
        "only http(s) images can be saved"
    );
}

#[test]
fn image_update_rewrites_the_page() {
    let url = "https://ex.com/p.png";
    let md = "---\ntitle: T\n---\n\n![a](https://ex.com/p.png)\n";
    let (name, normalized, body) = image_update(url, md);
    assert_eq!(name, image_filename(url));
    let local = format!("img/{name}");
    assert!(normalized.contains(&local));
    assert!(!normalized.contains(url));
    assert!(normalized.starts_with("---\ntitle: T\n---\n"));
    assert_eq!(body, format!("\n![a]({local})\n"));
}

#[test]
fn static_paths() {
    assert_eq!(static_rel_path("/img/a.png?v=1"), Some("img/a.png".to_string()));
    assert_eq!(static_rel_path("//img/a.png#x"), Some("img/a.png".to_string()));
    assert_eq!(static_rel_path("/"), None);
    assert_eq!(static_rel_path("/?x"), None);
    assert_eq!(static_rel_path("/img/../../etc/passwd"), None);
    assert_eq!(static_rel_path("/a..b/c"), Some("a..b/c".to_string()));
}

#[test]
fn content_types() {
    assert_eq!(content_type(Some("png")), "image/png");
    assert_eq!(content_type(Some("JPG")), "image/jpeg");
    assert_eq!(content_type(Some("jpeg")), "image/jpeg");
    assert_eq!(content_type(Some("gif")), "image/gif");
    assert_eq!(content_type(Some("svg")), "image/svg+xml");
    assert_eq!(content_type(Some("webp")), "image/webp");
    assert_eq!(content_type(Some("avif")), "image/avif");
    assert_eq!(content_type(Some("ico")), "image/x-icon");
    assert_eq!(content_type(Some("json")), "application/json");
    assert_eq!(content_type(Some("excalidraw")), "application/json");
    assert_eq!(content_type(Some("txt")), "application/octet-stream");
    assert_eq!(content_type(None), "application/octet-stream");
}

#[test]
fn save_outcome_renders_the_normalized_page() {
    let (normalized, answer) = save_outcome("guide/a", "Title\n=====\n\n[n](b.md)\n");
    assert_eq!(normalized, "# Title\n\n[n](b.md)\n");
    assert!(answer.starts_with("{\"html\":\"") && answer.ends_with("\",\"ok\":true}"));
    assert!(answer.contains("href=\\\"#/guide/b\\\""));
}

#[test]
fn empty_parents_inside_the_project_go() {
    let parts = |s: &str| s.split('/').map(|c| c.to_string()).collect::<Vec<_>>();
    assert!(removes_parent(&parts("/p"), &parts("/p/a"), true));
    assert!(removes_parent(&parts("/p"), &parts("/p/a/b"), true));
    assert!(!removes_parent(&parts("/p"), &parts("/p/a"), false));
    assert!(!removes_parent(&parts("/p"), &parts("/p"), true));
    assert!(!removes_parent(&parts("/p/a"), &parts("/p"), true));
    assert!(!removes_parent(&parts("/p"), &parts("/pq/a"), true));
}
