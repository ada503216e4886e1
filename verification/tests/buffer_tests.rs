use edit_core::text::TextBuffer;

fn chars(s: &str) -> Vec<char> {
    s.chars().collect()
}

fn buffer(s: &str) -> TextBuffer {
    TextBuffer::from_chars(chars(s))
}

#[test]
fn insert_into_middle() {
    let mut b = buffer("held");
    b.insert(2, &chars("llo wor"));
    assert_eq!(*b.as_chars(), chars("hello world"));
}

#[test]
fn insert_at_ends() {
    let mut b = buffer("bc");
    b.insert(0, &chars("a"));
    assert_eq!(*b.as_chars(), chars("abc"));
    b.insert(3, &chars("d"));
    assert_eq!(*b.as_chars(), chars("abcd"));
}

#[test]
fn insert_empty_is_noop() {
    let mut b = buffer("abc");
    b.insert(1, &chars(""));
    assert_eq!(*b.as_chars(), chars("abc"));
}

#[test]
fn delete_range_middle() {
    let mut b = buffer("hello world");
    b.delete_range(2, 8);
    assert_eq!(*b.as_chars(), chars("herld"));
}

#[test]
fn delete_range_empty() {
    let mut b = buffer("abc");
    b.delete_range(2, 2);
    assert_eq!(*b.as_chars(), chars("abc"));
}

#[test]
fn delete_char_before_simple() {
    let mut b = buffer("abc");
    let o = b.delete_char_before(3);
    assert_eq!(*b.as_chars(), chars("ab"));
    assert_eq!(o, 2);
}

#[test]
fn delete_char_before_at_start_is_noop() {
    let mut b = buffer("abc");
    let o = b.delete_char_before(0);
    assert_eq!(*b.as_chars(), chars("abc"));
    assert_eq!(o, 0);
}

#[test]
fn insert_then_delete_char_round_trip() {
    // For all buffers B and valid offsets o:
    // delete_char_before(insert(B, o, "x"), o + 1) == B.
    for o in 0..=5usize {
        let mut b = buffer("hello");
        b.insert(o, &chars("x"));
        let r = b.delete_char_before(o + 1);
        assert_eq!(*b.as_chars(), chars("hello"));
        assert_eq!(r, o);
    }
}

#[test]
fn delete_word_before_plain_word() {
    let mut b = buffer("hello world");
    let o = b.delete_word_before(11);
    assert_eq!(*b.as_chars(), chars("hello "));
    assert_eq!(o, 6);
}

#[test]
fn delete_word_before_takes_trailing_space_with_word() {
    let mut b = buffer("hello ");
    let o = b.delete_word_before(6);
    assert_eq!(*b.as_chars(), chars(""));
    assert_eq!(o, 0);
}

#[test]
fn delete_word_before_punctuation_is_its_own_unit() {
    let mut b = buffer("foo.bar");
    let o = b.delete_word_before(7);
    assert_eq!(*b.as_chars(), chars("foo."));
    assert_eq!(o, 4);
    let o = b.delete_word_before(4);
    assert_eq!(*b.as_chars(), chars("foo"));
    assert_eq!(o, 3);
    let o = b.delete_word_before(3);
    assert_eq!(*b.as_chars(), chars(""));
    assert_eq!(o, 0);
}

#[test]
fn delete_word_before_only_whitespace() {
    let mut b = buffer("   ");
    let o = b.delete_word_before(3);
    assert_eq!(*b.as_chars(), chars(""));
    assert_eq!(o, 0);
}

#[test]
fn delete_word_before_non_ascii_word_chars() {
    let mut b = buffer("héllo wörld");
    let o = b.delete_word_before(11);
    assert_eq!(*b.as_chars(), chars("héllo "));
    assert_eq!(o, 6);
}

#[test]
fn delete_word_before_in_middle() {
    let mut b = buffer("one two three");
    let o = b.delete_word_before(7);
    assert_eq!(*b.as_chars(), chars("one  three"));
    assert_eq!(o, 4);
}

#[test]
fn repeated_word_delete_reaches_document_start() {
    // Deleting word by word from the end empties the document in at
    // most one step per whitespace/word/punctuation run.
    let text = "alpha  beta.gamma, delta\n\nepsilon";
    // runs: alpha | two blanks | beta | . | gamma | , | blank | delta
    //       | two newlines | epsilon
    let runs = 10;
    let mut b = buffer(text);
    let mut steps = 0usize;
    loop {
        let len = b.as_chars().len();
        if len == 0 {
            break;
        }
        b.delete_word_before(len);
        steps += 1;
        assert!(steps <= runs, "word delete took more steps than runs");
    }
    assert_eq!(*b.as_chars(), chars(""));
}

#[test]
fn delete_word_before_at_document_start_is_noop() {
    let mut b = buffer("abc");
    let o = b.delete_word_before(0);
    assert_eq!(*b.as_chars(), chars("abc"));
    assert_eq!(o, 0);
}

#[test]
fn word_start_and_end_navigation() {
    let b = buffer("one two");
    assert_eq!(b.word_start_before(7), 4);
    assert_eq!(b.word_start_before(4), 0);
    assert_eq!(b.word_end_from(0), 3);
    assert_eq!(b.word_end_from(3), 7);
    assert_eq!(b.word_end_from(7), 7);
}
