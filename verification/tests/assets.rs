use zher::desktop::{is_desktop_environment, Platform, BROWSER_DELAY_MILLIS};
use zher::handlers::{
    asset_path, inject_tauri_mock, static_handler, static_reply, StaticReply, TAURI_MOCK_SCRIPT,
};
use zher::server::{bind_address, browser_url, cli_target, server_url};

#[test]
fn asset_paths_lose_their_leading_slashes() {
    assert_eq!(asset_path("/"), "index.html");
    assert_eq!(asset_path(""), "index.html");
    assert_eq!(asset_path("///"), "index.html");
    assert_eq!(asset_path("/assets/app.js"), "assets/app.js");
    assert_eq!(asset_path("//a//b/"), "a//b/");
    assert_eq!(asset_path("index.html"), "index.html");
}

#[test]
fn the_script_goes_behind_the_first_head() {
    let page = "<html><head><title>t</title></head><body><head></body></html>";
    let expected = format!(
        "<html><head>{TAURI_MOCK_SCRIPT}<title>t</title></head><body><head></body></html>"
    );
    assert_eq!(inject_tauri_mock(page), expected);
    assert_eq!(inject_tauri_mock("<head>"), format!("<head>{TAURI_MOCK_SCRIPT}"));
    assert_eq!(inject_tauri_mock("é<head>é"), format!("é<head>{TAURI_MOCK_SCRIPT}é"));
    assert_eq!(inject_tauri_mock("<HEAD></HEAD>"), "<HEAD></HEAD>");
    assert_eq!(inject_tauri_mock("<head lang=en>"), "<head lang=en>");
    assert_eq!(inject_tauri_mock(""), "");
    assert!(TAURI_MOCK_SCRIPT.starts_with("<script>\n(function() {"));
    assert!(TAURI_MOCK_SCRIPT.ends_with("})();\n</script>"));
    assert!(TAURI_MOCK_SCRIPT.contains("window.__TAURI_INTERNALS__ = { postMessage: () => {} };"));
}

#[test]
fn assets_are_sent_as_they_are() {
    let body = vec![0u8, 159, 146, 150];
    match static_handler("logo.png", Some(body.clone()), Some(b"<head>".to_vec())) {
        StaticReply::Asset { content_type, body: sent } => {
            assert_eq!(content_type, "image/png");
            assert_eq!(sent, body);
        }
        _ => panic!("no asset"),
    }
    let guess = mime_guess::from_path("app.js").first_or_octet_stream();
    match static_handler("app.js", Some(Vec::new()), None) {
        StaticReply::Asset { content_type, .. } => assert_eq!(content_type, guess.as_ref()),
        _ => panic!("no asset"),
    }
    match static_handler("blob.unknown-ext", Some(Vec::new()), None) {
        StaticReply::Asset { content_type, .. } => {
            assert_eq!(content_type, "application/octet-stream")
        }
        _ => panic!("no asset"),
    }
}

#[test]
fn the_front_page_gets_the_script() {
    match static_handler("index.html", Some(b"<head></head>".to_vec()), None) {
        StaticReply::Page { content_type, html } => {
            assert_eq!(content_type, "text/html");
            assert_eq!(html, format!("<head>{TAURI_MOCK_SCRIPT}</head>"));
        }
        _ => panic!("no page"),
    }
}

#[test]
fn unknown_paths_fall_back_to_the_front_page() {
    match static_handler("some/route", None, Some(b"<head>\xFF</head>".to_vec())) {
        StaticReply::Page { content_type, html } => {
            assert_eq!(content_type, "text/html");
            assert_eq!(html, format!("<head>{TAURI_MOCK_SCRIPT}\u{FFFD}</head>"));
        }
        _ => panic!("no page"),
    }
    assert!(matches!(static_handler("some/route", None, None), StaticReply::NotFound));
    match static_reply("a.css", "text/css".to_string(), "text/html".to_string(), None, Some(Vec::new())) {
        StaticReply::Page { content_type, html } => {
            assert_eq!(content_type, "text/html");
            assert_eq!(html, "");
        }
        _ => panic!("no page"),
    }
}

#[test]
fn server_addresses() {
    assert_eq!(bind_address("0.0.0.0", "4836"), "0.0.0.0:4836");
    assert_eq!(server_url("0.0.0.0", "4836", Some("192.168.1.7")), "http://192.168.1.7:4836");
    assert_eq!(server_url("0.0.0.0", "4836", None), "http://127.0.0.1:4836");
    assert_eq!(server_url("10.1.1.1", "80", Some("192.168.1.7")), "http://10.1.1.1:80");
    assert_eq!(browser_url("0.0.0.0", "4836"), "http://localhost:4836");
    assert_eq!(browser_url("::", "4836"), "http://localhost:4836");
    assert_eq!(browser_url("10.1.1.1", "80"), "http://10.1.1.1:80");
}

#[test]
fn command_line_defaults() {
    let args = |v: &[&str]| v.iter().map(|s| s.to_string()).collect::<Vec<_>>();
    assert_eq!(cli_target(&args(&[])), ("0.0.0.0".to_string(), "4836".to_string()));
    assert_eq!(cli_target(&args(&["zher"])), ("0.0.0.0".to_string(), "4836".to_string()));
    assert_eq!(cli_target(&args(&["zher", "::1"])), ("::1".to_string(), "4836".to_string()));
    assert_eq!(
        cli_target(&args(&["zher", "::1", "8080", "more"])),
        ("::1".to_string(), "8080".to_string())
    );
}

#[test]
fn desktop_needs_a_display_or_a_system_that_has_one() {
    let none = Platform { mobile: false, display: false, wayland_display: false, windows: false, macos: false };
    assert!(!is_desktop_environment(&none));
    assert!(is_desktop_environment(&Platform { display: true, ..none }));
    assert!(is_desktop_environment(&Platform { wayland_display: true, ..none }));
    assert!(is_desktop_environment(&Platform { windows: true, ..none }));
    assert!(is_desktop_environment(&Platform { macos: true, ..none }));
    assert!(!is_desktop_environment(&Platform { mobile: true, display: true, wayland_display: true, windows: true, macos: true }));
    assert_eq!(BROWSER_DELAY_MILLIS, 500);
}
