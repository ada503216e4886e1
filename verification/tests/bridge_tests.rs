use edit_core::bridge::{FileBridge, FileMessage};
use edit_core::selection::Selection;
use edit_core::text::TextBuffer;

fn chars(s: &str) -> Vec<char> {
    s.chars().collect()
}

fn msg(path: &str, text: &str) -> FileMessage {
    FileMessage { path: chars(path), text: chars(text) }
}

#[test]
fn open_request_then_delivery_then_poll() {
    let mut b = FileBridge::new();
    assert!(!b.pending());
    assert!(b.request_open());
    assert!(b.pending());
    assert!(b.deliver(msg("a.txt", "content")));
    assert!(!b.pending());
    let m = b.poll().expect("message should wait after delivery");
    assert_eq!(m.path, chars("a.txt"));
    assert_eq!(m.text, chars("content"));
    assert!(b.poll().is_none());
}

#[test]
fn second_request_is_rejected_while_one_is_outstanding() {
    let mut b = FileBridge::new();
    assert!(b.request_open());
    assert!(!b.request_open());
    assert!(b.deliver(msg("a", "x")));
    // still rejected: the message has not been consumed yet
    assert!(!b.request_open());
    b.poll();
    // after consumption a new request goes through
    assert!(b.request_open());
}

#[test]
fn delivery_without_outstanding_request_is_dropped() {
    let mut b = FileBridge::new();
    assert!(!b.deliver(msg("a", "x")));
    assert!(b.poll().is_none());
}

#[test]
fn each_message_is_delivered_and_consumed_at_most_once() {
    let mut b = FileBridge::new();
    assert!(b.request_open());
    assert!(b.deliver(msg("a", "one")));
    // a second delivery for the same request is rejected
    assert!(!b.deliver(msg("b", "two")));
    let m = b.poll().expect("first delivery waits");
    assert_eq!(m.text, chars("one"));
    assert!(b.poll().is_none());
}

#[test]
fn failed_resolution_clears_the_request_without_a_message() {
    let mut b = FileBridge::new();
    assert!(b.request_open());
    assert!(b.resolve_failed());
    assert!(!b.pending());
    assert!(b.poll().is_none());
    // a fresh request may follow the failure
    assert!(b.request_open());
    // with nothing outstanding there is nothing to resolve
    assert!(b.deliver(msg("a", "x")));
    assert!(!b.resolve_failed());
}

#[test]
fn poll_before_delivery_finds_nothing() {
    let mut b = FileBridge::new();
    assert!(b.request_open());
    assert!(b.poll().is_none());
    assert!(b.pending());
}

#[test]
fn selection_sorted_yields_min_max_whichever_end_is_primary() {
    let s = Selection { primary: 7, secondary: 2 };
    assert_eq!(s.sorted(), (2, 7));
    let s = Selection { primary: 2, secondary: 7 };
    assert_eq!(s.sorted(), (2, 7));
    let s = Selection { primary: 4, secondary: 4 };
    assert_eq!(s.sorted(), (4, 4));
    assert!(s.is_empty());
    assert!(!Selection { primary: 7, secondary: 2 }.is_empty());
}

#[test]
fn buffer_view_round_trips_through_chars() {
    let b = TextBuffer::from_chars(chars("héllo"));
    assert_eq!(b.len(), 5);
    assert_eq!(b.char_at(1), 'é');
    assert_eq!(*b.as_chars(), chars("héllo"));
}
