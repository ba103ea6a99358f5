use fp::cell_writer::{CellContent, CellType, CellWriter};
use fp::crawl::{crawl_file_name, linked_notebook_id, Crawl};
use fp::http::{graph_reply, graph_request, is_query_readable, login_reply, login_url, GraphRequest};
use fp::message::message_cell;
use fp::shell::{session_closing, session_heading};
use fp::snippets::{cell_display_line, find_cell, CellNotFound};
use fp::stress_test::{after_send, SendAction, SEND_ATTEMPTS};
use fp::templates::{
    format_template_parameters, parse_template_arguments, template_image, TemplateArgValue,
    TemplateArgumentsError, TemplateArguments, TemplateParameter,
};
use fp::timestamps::Timestamp;
use fp::update::{
    binary_url, checksum_matches, checksum_url, find_checksum, installed_through_homebrew,
    latest_version_from, newer_version, plan_update, verify_download,
    version_check_due, ChecksumError, DownloadError, Platform, UpdatePlan,
};
use time::OffsetDateTime;

fn s(x: &str) -> String {
    x.to_string()
}

fn float_seconds(s: &str) -> Option<i128> {
    let f: f64 = s.parse().ok()?;
    if f.is_nan() {
        return None;
    }
    let nanos = f * 1_000_000_000f64;
    OffsetDateTime::from_unix_timestamp_nanos(nanos as i128)
        .ok()
        .map(|t| t.unix_timestamp_nanos())
}

const A: &str = "AAAAAAAAAAAAAAAAAAAAAA";
const B: &str = "BBBBBBBBBBBBBBBBBBBBBB";
const C: &str = "CCCCCCCCCCCCCCCCCCCCCC";

#[test]
fn crawl_file_names_escape_and_lowercase() {
    let title = "My Notebook/1 \\ x";
    let expected = format!(
        "{}.md",
        title.replace(' ', "_").replace('/', r"\/").replace('\\', r"\\").to_lowercase()
    );
    assert_eq!(crawl_file_name(title, 0), expected);
    assert_eq!(crawl_file_name("My Notebook/1 \\ x", 0), "my_notebook\\\\/1_\\\\_x.md");
    assert_eq!(crawl_file_name("Title", 1), "title_1.md");
    assert_eq!(crawl_file_name("Title", 12), "title_12.md");
}

#[test]
fn crawl_visits_each_notebook_once() {
    let mut crawl = Crawl::new(s(A));
    assert_eq!(crawl.next(), Some(s(A)));
    let f = crawl.record(s(A), s("Title"), vec![s(B), s(A), s(C)]);
    assert_eq!(f, "title.md");
    assert_eq!(crawl.next(), Some(s(B)));
    let f = crawl.record(s(B), s("Title"), vec![]);
    assert_eq!(f, "title_1.md");
    assert_eq!(crawl.next(), Some(s(C)));
    let f = crawl.record(s(C), s("Other"), vec![s(A)]);
    assert_eq!(f, "other.md");
    assert_eq!(crawl.next(), None);
    assert_eq!(
        crawl.summary(),
        "- [Title](./title.md)\n- [Title](./title_1.md)\n- [Other](./other.md)\n"
    );
    let indices: Vec<usize> = crawl.crawled_notebooks().iter().map(|c| c.crawl_index).collect();
    assert_eq!(indices, vec![1, 2, 3]);
    assert_eq!(crawl.file_of(B), Some(s("title_1.md")));
    assert_eq!(crawl.file_of("nope"), None);
}

#[test]
fn notebooks_with_the_same_title_do_not_overwrite_one_another() {
    let mut crawl = Crawl::new(s(A));
    assert_eq!(crawl.next(), Some(s(A)));
    assert_eq!(crawl.record(s(A), s("Same"), vec![s(B)]), "same.md");
    assert_eq!(crawl.next(), Some(s(B)));
    assert_eq!(crawl.record(s(B), s("Same"), vec![s(C)]), "same_1.md");
    assert_eq!(crawl.next(), Some(s(C)));
    assert_eq!(crawl.record(s(C), s("Same"), vec![]), "same_2.md");
}

#[test]
fn crawl_relinks_markdown() {
    let mut crawl = Crawl::new(s(A));
    crawl.next();
    crawl.record(s(A), s("Title"), vec![]);
    let markdown = format!(
        "see https://studio.fiberplane.com/workspaces/w/notebooks/title-{} and https://x.com/notebook/{}.",
        A, C
    );
    assert_eq!(
        crawl.relink_markdown(&markdown),
        Some(format!("see ./title.md and https://x.com/notebook/{}.", C))
    );
    assert_eq!(crawl.relink_markdown("no links"), Some(s("no links")));
}

#[test]
fn linked_notebook_ids() {
    let base = "https://studio.fiberplane.com/";
    let url = format!("https://studio.fiberplane.com/notebook/{}", A);
    assert_eq!(linked_notebook_id(&url, base), Some(s(A)));
    assert_eq!(linked_notebook_id(&url, "https://other.example/"), None);
    assert_eq!(linked_notebook_id("https://studio.fiberplane.com/settings", base), None);
}

#[test]
fn login_endpoint() {
    assert_eq!(
        login_url("https://studio.fiberplane.com/", 8080),
        "https://studio.fiberplane.com/signin?cli_redirect_port=8080"
    );
    let r = login_reply(Some("token=abc")).unwrap();
    assert_eq!(r.token, Some(s("abc")));
    assert_eq!(r.reply.status, 200);
    assert_eq!(r.reply.body, "You have been logged in to the CLI. You can now close this tab.");
    let r = login_reply(Some("?other=1&token=a%20b")).unwrap();
    assert_eq!(r.token, Some(s("a b")));
    let r = login_reply(None).unwrap();
    assert_eq!(r.token, None);
    assert_eq!(r.reply.status, 400);
    assert_eq!(r.reply.body, "Expected token query string parameter.");
    let r = login_reply(Some("nothing=here")).unwrap();
    assert_eq!(r.reply.status, 400);
    // A parameter may hold other characters after its first one.
    let r = login_reply(Some("token=\u{e9}t\u{e9}")).unwrap();
    assert_eq!(r.token, Some(s("\u{e9}t\u{e9}")));
}

#[test]
fn unreadable_query_strings_are_not_answered() {
    assert!(login_reply(Some("\u{e9}=1")).is_none());
    assert!(login_reply(Some("a=1&\u{e9}")).is_none());
    assert!(login_reply(Some("?\u{e9}")).is_none());
    assert!(login_reply(Some("=\u{e9}")).is_none());
    assert!(login_reply(Some("a=\u{e9}")).is_some());
    assert!(is_query_readable("a=b=\u{e9}"));
    assert!(!is_query_readable("==\u{e9}"));
    assert!(is_query_readable(""));
    assert!(matches!(graph_request("/graph", Some("&\u{e9}")), GraphRequest::Drop));
    assert!(matches!(graph_request("/other", Some("&\u{e9}")), GraphRequest::Reply(_)));
}

#[test]
fn prometheus_graph_redirect() {
    match graph_request("/graph", Some("g0.expr=up&g0.tab=1")) {
        GraphRequest::AppendCell(d) => assert_eq!(d, "application/x-www-form-urlencoded,query=up"),
        _ => panic!("expected a cell"),
    }
    match graph_request("/metrics", Some("g0.expr=up")) {
        GraphRequest::Reply(r) => {
            assert_eq!(r.status, 404);
            assert_eq!(r.body, "Prometheus-to-notebook can only be used for graph URLs");
        }
        _ => panic!("expected not found"),
    }
    match graph_request("/graph", None) {
        GraphRequest::Reply(r) => {
            assert_eq!(r.status, 400);
            assert_eq!(r.body, "Expected `g0.expr` query string parameter");
        }
        _ => panic!("expected bad request"),
    }
    let ok = graph_reply(true, s("https://x/notebook/1#c"));
    assert_eq!(ok.status, 307);
    assert_eq!(ok.location, Some(s("https://x/notebook/1#c")));
    let err = graph_reply(false, s("https://x"));
    assert_eq!(err.status, 500);
    assert_eq!(err.body, "Error appending cell to notebook");
}

#[test]
fn update_plans_and_release_files() {
    assert_eq!(plan_update("1.0.0", "1.0.0", true, true), UpdatePlan::AlreadyLatest);
    assert_eq!(plan_update("1.1.0", "1.0.0", true, true), UpdatePlan::Forced);
    assert_eq!(plan_update("1.1.0", "1.0.0", false, true), UpdatePlan::HomebrewInstall);
    assert_eq!(plan_update("1.1.0", "1.0.0", false, false), UpdatePlan::Update);
    assert!(!UpdatePlan::AlreadyLatest.downloads());
    assert!(!UpdatePlan::HomebrewInstall.downloads());
    assert_eq!(
        binary_url("1.2.3", "x86_64-unknown-linux-gnu"),
        "https://fp.dev/fp/v1.2.3/x86_64-unknown-linux-gnu/fp"
    );
    assert_eq!(
        checksum_url("1.2.3", "aarch64-apple-darwin"),
        "https://fp.dev/fp/v1.2.3/aarch64-apple-darwin/checksum.sha256"
    );
    assert_eq!(latest_version_from(" 1.2.3\n"), "1.2.3");
}

#[test]
fn checksums() {
    assert_eq!(find_checksum("abc  fp.sig\ndef  fp\nghi  fp\n"), Ok(s("def")));
    assert_eq!(find_checksum("abc fp\n"), Err(ChecksumError::VersionNotFound));
    assert_eq!(find_checksum(""), Err(ChecksumError::VersionNotFound));
    assert_eq!(find_checksum("a  b  fp"), Err(ChecksumError::VersionNotFound));
    let abc = "ba7816bf8f01cfea414140de5dae2223b00361a396177a9cb410ff61f20015ad";
    assert_eq!(verify_download(b"abc", abc), Ok(()));
    assert_eq!(verify_download(b"abd", abc), Err(DownloadError::ChecksumMismatch));
    assert!(checksum_matches("x", "x"));
    assert!(!checksum_matches("x", "y"));
}

#[test]
fn version_checks() {
    assert!(version_check_due(None, 100_000));
    assert!(version_check_due(Some(0), 100_000));
    assert!(!version_check_due(Some(50_000), 100_000));
    assert!(!version_check_due(Some(13_600), 100_000));
    assert!(version_check_due(Some(13_599), 100_000));
    assert_eq!(newer_version(s("1.0.0"), "1.0.0"), None);
    assert_eq!(newer_version(s("1.1.0"), "1.0.0"), Some(s("1.1.0")));
}

#[test]
fn homebrew_locations() {
    assert!(installed_through_homebrew(Some("/home/linuxbrew/.linuxbrew/bin/fp"), Platform::Linux));
    assert!(!installed_through_homebrew(Some("/home/linuxbrew/.linuxbrewx/fp"), Platform::Linux));
    assert!(installed_through_homebrew(Some("/usr/local/bin/fp"), Platform::MacOs));
    assert!(installed_through_homebrew(Some("/opt/homebrew/bin/fp"), Platform::MacOs));
    assert!(!installed_through_homebrew(Some("/usr/bin/fp"), Platform::MacOs));
    assert!(!installed_through_homebrew(Some("/usr/local/bin/fp"), Platform::Other));
    assert!(!installed_through_homebrew(None, Platform::Linux));
}

#[test]
fn cell_writer_code_output() {
    let mut w = CellWriter::new(s("echo"), vec![s("hi"), s("there")]);
    assert_eq!(w.prompt_line("T", "/tmp"), "T\n/tmp \u{276f} echo hi there");
    let now = Timestamp { unix_nanos: 0, offset_seconds: 0 };
    assert!(w.flush("T", "/tmp", now, &float_seconds).is_none());
    w.append(b"hello ");
    w.append(b"world\n");
    match w.flush("T", "/tmp", now, &float_seconds) {
        Some(CellContent::Code { content }) => {
            assert_eq!(content, "T\n/tmp \u{276f} echo hi there\nhello world\n")
        }
        _ => panic!("expected a code cell"),
    }
    assert_eq!(w.current_cell_type(), CellType::Code);
    assert!(w.flush("T", "/tmp", now, &float_seconds).is_none());
    w.append(b"more\n");
    match w.flush("T2", "/tmp", now, &float_seconds) {
        Some(CellContent::Append { text }) => assert_eq!(text, "more\n"),
        _ => panic!("expected the text to be appended to the cell"),
    }
    assert_eq!(w.current_cell_type(), CellType::Code);
    let empty_args = CellWriter::new(s("ls"), vec![]);
    assert_eq!(empty_args.prompt_line("T", "/"), "T\n/ \u{276f} ls ");
}

#[test]
fn cell_writer_log_output() {
    let mut w = CellWriter::new(s("app"), vec![]);
    w.append(b"{\"ts\": \"2018-01-01T00:00:00.000Z\", \"body\": \"test\"}\n");
    let now = Timestamp { unix_nanos: 0, offset_seconds: 0 };
    match w.flush("T", "/", now, &float_seconds) {
        Some(CellContent::Log { title, logs }) => {
            assert_eq!(title, "T\n/ \u{276f} app ");
            assert_eq!(logs.len(), 1);
            assert_eq!(logs.key(0), "2018-01-01T00:00:00Z");
            assert_eq!(logs.record(0, 0).body, "test");
        }
        _ => panic!("expected a log cell"),
    }
    assert_eq!(w.current_cell_type(), CellType::Log);
    w.append(b"later line\n");
    match w.flush("T", "/", now, &float_seconds) {
        Some(CellContent::Append { text }) => assert_eq!(text, "later line\n"),
        _ => panic!("expected the text to be appended to the log cell"),
    }
}

#[test]
fn cell_writer_waits_for_utf8() {
    let mut w = CellWriter::new(s("app"), vec![]);
    w.append(&[0xff, b'a']);
    match w.flush("T", "/", Timestamp { unix_nanos: 0, offset_seconds: 0 }, &float_seconds) {
        Some(CellContent::Code { content }) => assert_eq!(content, "T\n/ \u{276f} app \n\u{fffd}a"),
        _ => panic!("expected a code cell"),
    }
    assert_eq!(w.current_cell_type(), CellType::Unknown);
}

#[test]
fn template_parameters_are_listed() {
    assert_eq!(format_template_parameters(&vec![]), "(none)");
    let params = vec![
        TemplateParameter::String { name: s("title"), default_value: Some(s("x")) },
        TemplateParameter::String { name: s("empty"), default_value: None },
        TemplateParameter::Number { name: s("n"), default_text: s("0") },
        TemplateParameter::Boolean { name: s("b"), default_value: None },
        TemplateParameter::Array { name: s("a"), default_json: s("null") },
        TemplateParameter::Object { name: s("o"), default_json: s("{\"k\":1}") },
        TemplateParameter::Unknown { name: s("u") },
    ];
    assert_eq!(
        format_template_parameters(&params),
        "title: string (default: \"x\")\nempty: string (default: \"\")\nn: number (default: 0)\nb: boolean (default: false)\na: array (default: null)\no: object (default: {\"k\":1})\nu: (type unknown)"
    );
}

#[test]
fn snippet_cells_are_listed() {
    assert_eq!(cell_display_line(0, "hello", "text", "c1"), "0. \"hello\" (text cell, ID: c1)");
    assert_eq!(cell_display_line(12, "a\nb", "code", "c2"), "12. \"a\nb\" (code cell, ID: c2)");
    let long = format!("line one\n{}", "x".repeat(120));
    let expected = format!("3. \"line one\\n{}...\" (code cell, ID: c3)", "x".repeat(91));
    assert_eq!(cell_display_line(3, &long, "code", "c3"), expected);
    let ids = vec![s("a"), s("b"), s("a")];
    assert_eq!(find_cell(&ids, "a"), Ok(0));
    assert_eq!(find_cell(&ids, "b"), Ok(1));
    assert_eq!(find_cell(&ids, "z"), Err(CellNotFound { cell_id: s("z") }));
}

#[test]
fn session_heading_marks_the_timestamp() {
    let h = session_heading("ana", "2023-01-01T00:00:00Z");
    assert_eq!(h.content, "@ana's shell session\n\u{1f7e2} Started at:\t2023-01-01T00:00:00Z");
    let offset = h.content.chars().count() - "2023-01-01T00:00:00Z".chars().count();
    assert_eq!(h.timestamp_offset, offset);
    assert_eq!(session_closing("t1"), "\n\u{1f534} Ended at: \tt1");
}

#[test]
fn message_cells_mention_their_author() {
    let m = message_cell("2023-01-01T00:00:00Z", "ana", &vec![s("hello"), s("world")]);
    assert_eq!(m.content, "\u{1f4ac} 2023-01-01T00:00:00Z @ana:  hello world");
    assert_eq!(m.mention_start, "\u{1f4ac} 2023-01-01T00:00:00Z ".chars().count());
    let empty = message_cell("t", "bo", &vec![]);
    assert_eq!(empty.content, "\u{1f4ac} t @bo:  ");
}

#[test]
fn uploaded_images_get_a_url() {
    let (url, file) = template_image(None, Some(s("f1")), "https://studio.fiberplane.com/", "nb");
    assert_eq!(url, Some(s("https://studio.fiberplane.com/api/notebooks/nb/files/f1")));
    assert_eq!(file, None);
    let (url, file) = template_image(Some(s("https://x/i.png")), Some(s("f1")), "b/", "nb");
    assert_eq!(url, Some(s("https://x/i.png")));
    assert_eq!(file, Some(s("f1")));
    assert_eq!(template_image(None, None, "b/", "nb"), (None, None));
}

fn arg_value<'a>(args: &'a [(String, TemplateArgValue)], key: &str) -> &'a TemplateArgValue {
    &args.iter().find(|(k, _)| k == key).expect("missing key").1
}

fn string_arg(v: &TemplateArgValue) -> String {
    match v {
        TemplateArgValue::String(s) => s.clone(),
        TemplateArgValue::Json(j) => panic!("expected a string, got JSON {j}"),
    }
}

#[test]
fn template_arguments_from_json() {
    let args = parse_template_arguments(r#"{"a": 1, "b": "x", "c": [true, null]}"#).unwrap();
    assert_eq!(args.len(), 3);
    assert!(matches!(arg_value(&args, "a"), TemplateArgValue::Json(j) if j == "1"));
    assert_eq!(string_arg(arg_value(&args, "b")), "x");
    assert!(matches!(arg_value(&args, "c"), TemplateArgValue::Json(j) if j == "[true,null]"));
}

#[test]
fn template_arguments_from_pairs() {
    let args = parse_template_arguments("a=1,b:2; c = 3").unwrap();
    let pairs: Vec<(String, String)> = args.iter().map(|(k, v)| (k.clone(), string_arg(v))).collect();
    assert_eq!(pairs, vec![(s("a"), s("1")), (s("b"), s("2")), (s("c "), s(" 3"))]);
    let args = parse_template_arguments("x=y=z;x=w").unwrap();
    let pairs: Vec<(String, String)> = args.iter().map(|(k, v)| (k.clone(), string_arg(v))).collect();
    assert_eq!(pairs, vec![(s("x"), s("w"))]);
    let args = parse_template_arguments("title=a:b").unwrap();
    assert_eq!(string_arg(arg_value(&args, "title")), "a:b");
    let wrapped = TemplateArguments::from_str("k=v").unwrap();
    assert_eq!(wrapped.0.len(), 1);
}

#[test]
fn template_arguments_need_a_delimiter() {
    assert_eq!(parse_template_arguments("").err(), Some(TemplateArgumentsError::MissingDelimiter));
    assert_eq!(parse_template_arguments("a=1,").err(), Some(TemplateArgumentsError::MissingDelimiter));
    assert_eq!(parse_template_arguments("[1, 2]").err(), Some(TemplateArgumentsError::MissingDelimiter));
    assert_eq!(parse_template_arguments("\"text\"").err(), Some(TemplateArgumentsError::MissingDelimiter));
    assert!(TemplateArguments::from_str("nothing").is_err());
}

#[test]
fn rejected_operations_are_sent_three_times_at_most() {
    assert_eq!(SEND_ATTEMPTS, 3);
    assert_eq!(after_send(1, false), SendAction::Deliver);
    assert_eq!(after_send(1, true), SendAction::Resend);
    assert_eq!(after_send(2, true), SendAction::Resend);
    assert_eq!(after_send(3, true), SendAction::GiveUp);
    assert_eq!(after_send(3, false), SendAction::Deliver);
}
