use webdropper::markup::{escape_message, newlines_to_breaks};
use webdropper::page::{replace_all, show_index, SUCCESS_PLACEHOLDER};
use webdropper::session::{Action, PartEvent, UploadError, UploadSession};
use webdropper::summary::{push_decimal, summary_message, UploadOutcome};

const TEMPLATE: &str = "<html><body><!--success-msg--><form></form></body></html>";

fn outcome(name: &str, n: usize) -> UploadOutcome {
    UploadOutcome { filename: name.to_string(), byte_count: n }
}

fn part(name: Option<&str>) -> PartEvent {
    PartEvent::Part { filename: name.map(|s| s.to_string()) }
}

fn respond_message(a: Action) -> String {
    match a {
        Action::Respond { message } => message,
        _ => panic!("expected a response"),
    }
}

fn abort_error(a: Action) -> UploadError {
    match a {
        Action::Abort { error } => error,
        _ => panic!("expected an abort"),
    }
}

#[test]
fn decimal_writes_digits() {
    let mut s = String::from("n=");
    push_decimal(&mut s, 0);
    push_decimal(&mut s, 7);
    s.push(' ');
    push_decimal(&mut s, 1234567890);
    assert_eq!(s, "n=07 1234567890");
}

#[test]
fn summary_of_one_file() {
    let msg = summary_message(&vec![outcome("test.txt", 5)]);
    assert_eq!(msg, "Successfully uploaded 1 file(s):\ntest.txt (5 bytes)");
}

#[test]
fn summary_of_no_file() {
    assert_eq!(summary_message(&vec![]), "Successfully uploaded 0 file(s):");
}

#[test]
fn summary_keeps_order() {
    let msg = summary_message(&vec![outcome("b.bin", 262144000), outcome("a.txt", 0), outcome("b.bin", 12)]);
    assert_eq!(
        msg,
        "Successfully uploaded 3 file(s):\nb.bin (262144000 bytes)\na.txt (0 bytes)\nb.bin (12 bytes)"
    );
}

#[test]
fn escaping_covers_the_six_characters() {
    assert_eq!(escape_message("a&b<c>d\"e'f/g"), "a&amp;b&lt;c&gt;d&quot;e&#x27;f&#x2F;g");
    assert_eq!(escape_message("plain ü text"), "plain ü text");
    assert_eq!(escape_message(""), "");
}

#[test]
fn escaping_then_breaks() {
    assert_eq!(escape_message("<x>\ny"), "&lt;x&gt;<br>y");
}

#[test]
fn newlines_become_breaks() {
    assert_eq!(newlines_to_breaks("a\n\nb\n"), "a<br><br>b<br>");
    assert_eq!(newlines_to_breaks("none"), "none");
}

#[test]
fn replace_is_left_to_right_without_overlap() {
    assert_eq!(replace_all("aaa", "aa", "X"), "Xa");
    assert_eq!(replace_all("xaay aa", "aa", "<>"), "x<>y <>");
    assert_eq!(replace_all("abc", "", "X"), "abc");
    assert_eq!(replace_all("", "a", "X"), "");
}

#[test]
fn index_without_message_is_the_template() {
    assert_eq!(show_index(TEMPLATE, None), TEMPLATE);
}

#[test]
fn index_with_message_replaces_the_marker() {
    let page = show_index(TEMPLATE, Some("Successfully uploaded 1 file(s):\ntest.txt (5 bytes)"));
    assert_eq!(
        page,
        "<html><body><p class='success'>Successfully uploaded 1 file(s):<br>test.txt (5 bytes)<p><form></form></body></html>"
    );
    assert!(!page.contains(SUCCESS_PLACEHOLDER));
}

#[test]
fn index_escapes_filenames() {
    let page = show_index("<!--success-msg-->", Some("<script>"));
    assert_eq!(page, "<p class='success'>&lt;script&gt;<p>");
}

#[test]
fn index_without_marker_is_unchanged() {
    assert_eq!(show_index("<p>no marker</p>", Some("hi")), "<p>no marker</p>");
}

#[test]
fn session_round_trip_one_file() {
    let mut s = UploadSession::new();
    match s.step(part(Some("test.txt"))) {
        Action::Store { filename } => assert_eq!(filename, "test.txt"),
        _ => panic!("expected a store"),
    }
    assert!(matches!(s.step(PartEvent::Stored { byte_count: 5 }), Action::NextPart));
    let msg = respond_message(s.step(PartEvent::Exhausted));
    assert!(msg.contains("test.txt"));
    assert!(msg.contains("5 bytes"));
    assert!(s.is_done());
}

#[test]
fn session_empty_body_reports_zero() {
    let mut s = UploadSession::new();
    let msg = respond_message(s.step(PartEvent::Exhausted));
    assert_eq!(msg, "Successfully uploaded 0 file(s):");
}

#[test]
fn session_lists_parts_in_order() {
    let mut s = UploadSession::new();
    for (name, n) in [("one", 1usize), ("two", 22), ("three", 333)] {
        assert!(matches!(s.step(part(Some(name))), Action::Store { .. }));
        assert!(matches!(s.step(PartEvent::Stored { byte_count: n }), Action::NextPart));
    }
    let msg = respond_message(s.step(PartEvent::Exhausted));
    assert_eq!(msg, "Successfully uploaded 3 file(s):\none (1 bytes)\ntwo (22 bytes)\nthree (333 bytes)");
    assert_eq!(s.outcomes().len(), 3);
}

#[test]
fn session_skips_failed_store() {
    let mut s = UploadSession::new();
    s.step(part(Some("bad/name")));
    assert!(matches!(s.step(PartEvent::StoreFailed), Action::NextPart));
    s.step(part(Some("good")));
    s.step(PartEvent::Stored { byte_count: 3 });
    let msg = respond_message(s.step(PartEvent::Exhausted));
    assert_eq!(msg, "Successfully uploaded 1 file(s):\ngood (3 bytes)");
}

#[test]
fn session_same_name_twice_is_listed_twice() {
    let mut s = UploadSession::new();
    for n in [4usize, 9] {
        s.step(part(Some("same.txt")));
        s.step(PartEvent::Stored { byte_count: n });
    }
    let msg = respond_message(s.step(PartEvent::Exhausted));
    assert_eq!(msg, "Successfully uploaded 2 file(s):\nsame.txt (4 bytes)\nsame.txt (9 bytes)");
}

#[test]
fn session_missing_filename_aborts() {
    let mut s = UploadSession::new();
    assert_eq!(abort_error(s.step(part(None))), UploadError::MissingFilename);
    assert!(s.is_done());
    let mut s = UploadSession::new();
    assert_eq!(abort_error(s.step(part(Some("")))), UploadError::MissingFilename);
}

#[test]
fn session_malformed_body_aborts() {
    let mut s = UploadSession::new();
    assert_eq!(abort_error(s.step(PartEvent::Malformed)), UploadError::MalformedBody);
    let mut s = UploadSession::new();
    s.step(part(Some("x")));
    assert_eq!(abort_error(s.step(PartEvent::Malformed)), UploadError::MalformedBody);
}

#[test]
fn session_out_of_order_events_abort() {
    let mut s = UploadSession::new();
    assert_eq!(abort_error(s.step(PartEvent::Stored { byte_count: 1 })), UploadError::OutOfOrder);
    let mut s = UploadSession::new();
    s.step(part(Some("x")));
    assert_eq!(abort_error(s.step(PartEvent::Exhausted)), UploadError::OutOfOrder);
    assert_eq!(abort_error(s.step(PartEvent::Exhausted)), UploadError::OutOfOrder);
}
