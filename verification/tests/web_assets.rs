use holon_http::files::{guess_mime, mime_by_extension};
use holon_http::web::{
    accepts_html, asset_response_plan, normalize_web_asset_path, web_asset_cache_control,
    web_fallback_steps, AssetResponsePlan, WebFallbackStep,
};

#[test]
fn cache_control_follows_hashed_asset_layout() {
    assert_eq!(
        web_asset_cache_control("assets/index-Dz3cIIu_.js"),
        "public, max-age=31536000, immutable"
    );
    assert_eq!(web_asset_cache_control("index.html"), "no-cache");
    assert_eq!(web_asset_cache_control("favicon.svg"), "no-cache");
}

#[test]
fn accept_header_lists_html() {
    assert!(accepts_html(Some("text/html,application/xhtml+xml")));
    assert!(accepts_html(Some("application/json, text/html;q=0.9")));
    assert!(!accepts_html(Some("application/json")));
    assert!(!accepts_html(Some("xtext/html")));
    assert!(!accepts_html(None));
}

#[test]
fn asset_paths_are_relative_and_contained() {
    assert_eq!(normalize_web_asset_path("index.html").as_deref(), Some("index.html"));
    assert_eq!(
        normalize_web_asset_path("/assets//app.js").as_deref(),
        Some("assets/app.js")
    );
    assert_eq!(
        normalize_web_asset_path("assets/./app%20x.js").as_deref(),
        Some("assets/app x.js")
    );
    assert_eq!(normalize_web_asset_path("assets/app.js/").as_deref(), Some("assets/app.js"));
    assert_eq!(normalize_web_asset_path("../secret"), None);
    assert_eq!(normalize_web_asset_path("assets/%2E%2E/secret"), None);
    assert_eq!(normalize_web_asset_path("./index.html"), None);
    assert_eq!(normalize_web_asset_path("a\\b"), None);
    assert_eq!(normalize_web_asset_path("%5C"), None);
    assert_eq!(normalize_web_asset_path("///"), None);
    assert_eq!(normalize_web_asset_path(""), None);
    assert_eq!(normalize_web_asset_path("%FF"), None);
}

#[test]
fn mime_guessing_by_extension_and_content() {
    assert_eq!(mime_by_extension("src/app.ts"), "text/typescript");
    assert_eq!(mime_by_extension("src/App.TSX"), "text/tsx");
    assert_eq!(mime_by_extension("index.html"), "text/html");
    assert_eq!(mime_by_extension("photo.PNG"), "image/png");
    assert_eq!(mime_by_extension("Makefile"), "application/octet-stream");
    assert_eq!(mime_by_extension(".bashrc"), "application/octet-stream");
    assert_eq!(mime_by_extension("dir.d/noext"), "application/octet-stream");
    assert_eq!(guess_mime("Makefile", Some(b"all:\n\tcc main.c\n")), "text/plain");
    assert_eq!(guess_mime("Makefile", Some(b"")), "text/plain");
    assert_eq!(guess_mime("blob", Some(&[0, 1, 2, 3])), "application/octet-stream");
    assert_eq!(guess_mime("blob", None), "application/octet-stream");
    assert_eq!(guess_mime("notes.md", None), "text/markdown");
}

#[test]
fn asset_plan_revalidates_with_if_none_match() {
    match asset_response_plan("assets/app-1a2b.js", "\"abc\"".to_string(), Some("W/\"abc\""), false) {
        AssetResponsePlan::NotModified { etag, cache_control } => {
            assert_eq!(etag, "\"abc\"");
            assert_eq!(cache_control, "public, max-age=31536000, immutable");
        }
        other => panic!("unexpected {other:?}"),
    }
    match asset_response_plan("index.html", "\"abc\"".to_string(), Some("\"other\""), true) {
        AssetResponsePlan::Full { content_type, etag, cache_control, send_body } => {
            assert_eq!(content_type, "text/html");
            assert_eq!(etag, "\"abc\"");
            assert_eq!(cache_control, "no-cache");
            assert!(!send_body);
        }
        other => panic!("unexpected {other:?}"),
    }
    match asset_response_plan("assets/data.unknownext", "\"t\"".to_string(), None, false) {
        AssetResponsePlan::Full { content_type, send_body, .. } => {
            assert_eq!(content_type, "application/octet-stream");
            assert!(send_body);
        }
        other => panic!("unexpected {other:?}"),
    }
}

#[test]
fn fallback_steps_follow_the_console_rules() {
    let asset = |p: &str| WebFallbackStep::ServeAsset(p.to_string());
    assert_eq!(web_fallback_steps(false, "/x", None, false, false), vec![WebFallbackStep::NotFound]);
    assert_eq!(
        web_fallback_steps(true, "/login", None, true, false),
        vec![asset("index.html"), WebFallbackStep::LoginPage]
    );
    assert_eq!(
        web_fallback_steps(true, "/agents/web", Some("text/html,application/xhtml+xml"), false, false),
        vec![asset("agents/web"), asset("index.html"), WebFallbackStep::NotFound]
    );
    assert_eq!(
        web_fallback_steps(true, "/agents/web", Some("text/html"), true, false),
        vec![asset("agents/web"), WebFallbackStep::RedirectToLogin]
    );
    assert_eq!(
        web_fallback_steps(true, "/", Some(" text/html"), true, true),
        vec![asset("index.html"), WebFallbackStep::NotFound]
    );
    assert_eq!(
        web_fallback_steps(true, "/favicon.ico", Some("image/*"), false, false),
        vec![asset("favicon.ico"), WebFallbackStep::NotFound]
    );
}

#[test]
fn extensions_ignore_trailing_separators_and_dot_components() {
    assert_eq!(mime_by_extension("notes.txt/"), "text/plain");
    assert_eq!(mime_by_extension("docs/notes.md/."), "text/markdown");
    assert_eq!(mime_by_extension("docs/.."), "application/octet-stream");
    assert_eq!(mime_by_extension("/"), "application/octet-stream");
    assert_eq!(mime_by_extension(".bashrc"), "application/octet-stream");
}
