use flib_rs::catalog::{parse_line, records_from_member, ParseError};
use flib_rs::delim::{split_into_lines, split_on};

const GOOD_LINE: &[u8] = b"Doe J.\x04\x04Book One\x04\x04\x045\x04\x04\x04\x04\x04";

#[test]
fn split_on_empty_input_gives_one_empty_field() {
    let fields = split_on(b"", 4);
    assert_eq!(fields.len(), 1);
    assert_eq!(fields[0], Vec::<u8>::new());
}

#[test]
fn split_on_separates_fields() {
    let fields = split_on(b"a\x04bc\x04", 4);
    assert_eq!(fields.len(), 3);
    assert_eq!(fields[0], b"a".to_vec());
    assert_eq!(fields[1], b"bc".to_vec());
    assert_eq!(fields[2], b"".to_vec());
}

#[test]
fn lines_drop_final_newline_and_carriage_returns() {
    let lines = split_into_lines(b"one\r\ntwo\nthree");
    assert_eq!(lines.len(), 3);
    assert_eq!(lines[0], b"one".to_vec());
    assert_eq!(lines[1], b"two".to_vec());
    assert_eq!(lines[2], b"three".to_vec());
    assert_eq!(split_into_lines(b"").len(), 0);
    assert_eq!(split_into_lines(b"a\n").len(), 1);
}

#[test]
fn parse_line_reads_author_title_and_id() {
    let book = parse_line(GOOD_LINE, b"arch/lib.a.zip").unwrap();
    assert_eq!(book.id, 5);
    assert_eq!(book.author_name, b"Doe J.".to_vec());
    assert_eq!(book.book_title, b"Book One".to_vec());
    assert_eq!(book.archive_path, b"arch/lib.a.zip".to_vec());
}

#[test]
fn parse_line_rejects_short_lines() {
    let r = parse_line(b"Doe J.\x04\x04Book One\x045", b"p");
    assert_eq!(r.unwrap_err(), ParseError::TooFewFields);
}

#[test]
fn parse_line_rejects_unparseable_id() {
    let r = parse_line(b"Doe J.\x04\x04Book One\x04\x04\x04x9\x04\x04\x04\x04\x04", b"p");
    assert_eq!(r.unwrap_err(), ParseError::InvalidId);
}

#[test]
fn member_yields_one_record_per_accepted_line() {
    let mut content = Vec::new();
    content.extend_from_slice(GOOD_LINE);
    content.extend_from_slice(b"\n");
    content.extend_from_slice(b"too\x04short\n");
    content.extend_from_slice(b"A\x04\x04T\x04\x04\x04bad\x04\x04\x04\x04\x04\n");
    content.extend_from_slice(b"Poe E.\x04\x04Book Two\x04\x04\x0442\x04\x04\x04\x04\x04\n");
    let books = records_from_member(b"lib.a.inp", &content, b"arch", true);
    assert_eq!(books.len(), 2);
    assert_eq!(books[0].id, 5);
    assert_eq!(books[0].book_title, b"Book One".to_vec());
    assert_eq!(books[0].archive_path, b"arch/lib.a.zip".to_vec());
    assert_eq!(books[1].id, 42);
    assert_eq!(books[1].author_name, b"Poe E.".to_vec());
}

#[test]
fn member_without_archive_yields_nothing() {
    let books = records_from_member(b"lib.a.inp", GOOD_LINE, b"arch", false);
    assert_eq!(books.len(), 0);
}

#[test]
fn member_with_other_suffix_yields_nothing() {
    let books = records_from_member(b"lib.a.txt", GOOD_LINE, b"arch", true);
    assert_eq!(books.len(), 0);
}
