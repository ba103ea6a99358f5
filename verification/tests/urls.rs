use fp::urls::{slugify, websocket_url, NotebookUrlBuilder};

#[test]
fn slugify_test() {
    let tests = vec![
        ("title", "title"),
        ("title   title", "title-title"),
        ("title 😁 title", "title-title"),
        ("title---title", "title-title"),
        ("title-----title", "title-title"),
    ];

    for test in tests {
        let (input, expected) = test;
        let actual = slugify(input.to_string());
        assert_eq!(actual, expected.to_string());
    }
}

#[test]
fn slugify_removes_ticks_and_keeps_underscores() {
    assert_eq!(slugify("Don't panic_now!".to_string()), "Dont-panic_now-");
}

#[test]
fn notebook_url_builder_everything() {
    let url = NotebookUrlBuilder::new(
        "JwpDrHrlS-OWjxYXe9gJ2g".to_string(),
        "ftTv2S3yRPyJyQQbopXonQ".to_string(),
    )
    .base_url(url::Url::parse("https://dev.fiberplane.io").unwrap().to_string())
    .title("Reported issues on API".to_string())
    .cell_id("dNJvBmg90N-dR_6iZV99LQ".to_string())
    .url()
    .unwrap();

    assert_eq!(
        url.as_str(),
        "https://dev.fiberplane.io/workspaces/JwpDrHrlS-OWjxYXe9gJ2g/notebooks/Reported-issues-on-API-ftTv2S3yRPyJyQQbopXonQ#dNJvBmg90N-dR_6iZV99LQ"
    );
}

#[test]
fn notebook_url_builder_minimum() {
    let url = NotebookUrlBuilder::new(
        "JwpDrHrlS-OWjxYXe9gJ2g".to_string(),
        "ftTv2S3yRPyJyQQbopXonQ".to_string(),
    )
    .url()
    .unwrap();

    assert_eq!(
        url.as_str(),
        "https://studio.fiberplane.com/workspaces/JwpDrHrlS-OWjxYXe9gJ2g/notebooks/ftTv2S3yRPyJyQQbopXonQ"
    );
}

#[test]
fn notebook_url_builder_rejects_base_without_path() {
    let url = NotebookUrlBuilder::new("a".to_string(), "b".to_string())
        .base_url("mailto:someone@example.com".to_string())
        .url();
    assert!(url.is_none());
}

#[test]
fn slugs_are_stable() {
    for input in ["Hello, World!", "it's -- a  test", "Ünïcödé ∑ title", "a--b", "--", ""] {
        let once = slugify(input.to_string());
        assert_eq!(slugify(once.clone()), once);
        assert!(!once.contains('\''));
        assert!(!once.contains("--"));
    }
}

#[test]
fn websocket_addresses() {
    assert_eq!(
        websocket_url("https://studio.fiberplane.com").as_deref(),
        Some("wss://studio.fiberplane.com/api/ws")
    );
    assert_eq!(
        websocket_url("http://localhost:3030/some/path?x=1").as_deref(),
        Some("ws://localhost:3030/api/ws?x=1")
    );
    assert_eq!(websocket_url("not a url"), None);
    assert_eq!(websocket_url("foo://example.net"), None);
}
