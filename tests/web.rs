use cargo_script_platform::web::{generate_url, get_raw_gist_url, is_gist_url};

#[test]
fn raw_gist_url_from_page() {
    let html = "<html>\r\n<a href=\"/u/abc/raw/123/x.rs\" class=\"btn\">Raw</a>\r\n<a href=\"/u/abc/raw/999/y.rs\">";
    assert_eq!(
        get_raw_gist_url(html),
        Some("https://gist.githubusercontent.com/u/abc/raw/123/x.rs".to_string())
    );
}

#[test]
fn raw_gist_url_absent() {
    assert_eq!(get_raw_gist_url("<html>\n<body></body>\n"), None);
    assert_eq!(get_raw_gist_url("see /raw/ here"), None);
}

#[test]
fn raw_gist_url_quote_runs_to_line_end() {
    assert_eq!(
        get_raw_gist_url("x\nhref=\"/a/raw/b\r\n"),
        Some("https://gist.githubusercontent.com/a/raw/b".to_string())
    );
}

#[test]
fn github_url_gets_raw_host() {
    assert_eq!(
        generate_url("github.com/u/r/master/github.com.rs", None),
        Some("raw.githubusercontent.com/u/r/master/raw.githubusercontent.com.rs".to_string())
    );
    assert_eq!(generate_url("https://example.org/x.rs", None), Some("https://example.org/x.rs".to_string()));
}

#[test]
fn gist_url_needs_page() {
    let url = "https://gist.github.com/u/abc";
    assert!(is_gist_url(url));
    assert!(!is_gist_url("github.com/u"));
    assert_eq!(generate_url(url, None), None);
    assert_eq!(
        generate_url(url, Some("<a href=\"/u/abc/raw/1/m.rs\">")),
        Some("https://gist.githubusercontent.com/u/abc/raw/1/m.rs".to_string())
    );
}
