//! Catalog records and their ingestion from the delimited catalog format.
//!
//! A catalog member is a text file: one record per line, fields separated by
//! the byte 0x04. A line is accepted when it has at least eleven fields and
//! its sixth field reads as an unsigned 64-bit identifier; field 0 is the
//! author, field 2 the title. The archive path of every record of a member
//! is derived from the member's own name.

use vstd::prelude::*;
use vstd::slice::slice_to_vec;
use crate::delim::{lines_of, split_bytes, split_into_lines, split_on, FIELD_SEP};
use crate::naming::{derive_archive_path, ends_with, inp_suffix, spec_archive_path};
use crate::numbers::{parse_u64, u64_parseable, u64_value};

verus! {

/// One normalized catalog record.
#[derive(Debug)]
pub struct Book {
    /// Unique catalog identifier.
    pub id: u64,
    /// Field 0 of the source line.
    pub author_name: Vec<u8>,
    /// Field 2 of the source line.
    pub book_title: Vec<u8>,
    /// Path of the per-book archive holding the document.
    pub archive_path: Vec<u8>,
}

/// The mathematical shadow of a record.
pub ghost struct BookView {
    pub id: u64,
    pub author_name: Seq<u8>,
    pub book_title: Seq<u8>,
    pub archive_path: Seq<u8>,
}

impl View for Book {
    type V = BookView;

    open spec fn view(&self) -> BookView {
        BookView {
            id: self.id,
            author_name: self.author_name@,
            book_title: self.book_title@,
            archive_path: self.archive_path@,
        }
    }
}

/// Why a catalog line was rejected.
#[derive(Debug, Clone, Copy, PartialEq, Eq, Structural)]
pub enum ParseError {
    /// The line has fewer than eleven fields.
    TooFewFields,
    /// Field 5 does not read as an unsigned 64-bit number.
    InvalidId,
}

/// The fields of one catalog line.
pub open spec fn line_fields(l: Seq<u8>) -> Seq<Seq<u8>> {
    split_bytes(l, FIELD_SEP)
}

/// Whether a catalog line yields a record: at least eleven fields and a
/// parseable identifier in field 5.
pub open spec fn line_ok(l: Seq<u8>) -> bool {
    line_fields(l).len() >= 11 && u64_parseable(line_fields(l)[5])
}

/// The record an accepted line yields, given the archive path derived from
/// the surrounding member's name.
pub open spec fn line_book(l: Seq<u8>, path: Seq<u8>) -> BookView {
    BookView {
        id: u64_value(line_fields(l)[5]) as u64,
        author_name: line_fields(l)[0],
        book_title: line_fields(l)[2],
        archive_path: path,
    }
}

/// Parses one catalog line into a record carrying the given archive path.
/// Accepts exactly the lines with at least eleven fields whose field 5 reads
/// as an unsigned 64-bit number, and each error names its own cause.
pub fn parse_line(line: &[u8], archive_path: &[u8]) -> (r: Result<Book, ParseError>)
    ensures
        match r {
            Ok(b) => line_ok(line@) && b@ == line_book(line@, archive_path@),
            Err(ParseError::TooFewFields) => line_fields(line@).len() < 11,
            Err(ParseError::InvalidId) => line_fields(line@).len() >= 11 && !u64_parseable(
                line_fields(line@)[5],
            ),
        },
        r is Ok <==> line_ok(line@),
{
    let fields = split_on(line, FIELD_SEP);
    proof {
        assert(fields@.map_values(|f: Vec<u8>| f@).len() == fields@.len());
    }
    if fields.len() < 11 {
        return Err(ParseError::TooFewFields);
    }
    proof {
        assert(fields@[5]@ == line_fields(line@)[5]);
        assert(fields@[0]@ == line_fields(line@)[0]);
        assert(fields@[2]@ == line_fields(line@)[2]);
    }
    let id = match parse_u64(fields[5].as_slice()) {
        Some(v) => v,
        None => {
            return Err(ParseError::InvalidId);
        },
    };
    Ok(Book {
        id,
        author_name: slice_to_vec(fields[0].as_slice()),
        book_title: slice_to_vec(fields[2].as_slice()),
        archive_path: slice_to_vec(archive_path),
    })
}

/// The records that a sequence of lines yields, in order, each carrying the
/// same archive path; rejected lines yield nothing and abort nothing.
pub open spec fn records_of_lines(ls: Seq<Seq<u8>>, path: Seq<u8>) -> Seq<BookView>
    decreases ls.len(),
{
    if ls.len() == 0 {
        Seq::empty()
    } else {
        records_of_lines(ls.drop_last(), path) + if line_ok(ls.last()) {
            seq![line_book(ls.last(), path)]
        } else {
            Seq::empty()
        }
    }
}

/// The records that one container member yields: none unless the member name
/// ends in ".inp" and its derived archive file exists; otherwise one record
/// per accepted line of its content.
pub open spec fn member_records(
    member: Seq<u8>,
    content: Seq<u8>,
    root: Seq<u8>,
    archive_exists: bool,
) -> Seq<BookView> {
    if ends_with(member, inp_suffix()) && archive_exists {
        records_of_lines(lines_of(content), spec_archive_path(member, root))
    } else {
        Seq::empty()
    }
}

/// Turns the content of one container member into records.
///
/// `archive_exists` reports whether the file at the derived archive path
/// (`derive_archive_path(member, root)`) exists; when it does not, or when
/// the member is no catalog member, the member yields no records.
pub fn records_from_member(
    member: &[u8],
    content: &[u8],
    root: &[u8],
    archive_exists: bool,
) -> (r: Vec<Book>)
    ensures
        r@.map_values(|b: Book| b@) == member_records(member@, content@, root@, archive_exists),
{
    let path = match derive_archive_path(member, root) {
        Some(p) => p,
        None => {
            let r: Vec<Book> = Vec::new();
            proof {
                assert(r@.map_values(|b: Book| b@) =~= Seq::<BookView>::empty());
            }
            return r;
        },
    };
    if !archive_exists {
        let r: Vec<Book> = Vec::new();
        proof {
            assert(r@.map_values(|b: Book| b@) =~= Seq::<BookView>::empty());
        }
        return r;
    }
    let lines = split_into_lines(content);
    let ghost line_views = lines@.map_values(|l: Vec<u8>| l@);
    let mut r: Vec<Book> = Vec::new();
    let mut i: usize = 0;
    while i < lines.len()
        invariant
            0 <= i <= lines.len(),
            line_views == lines@.map_values(|l: Vec<u8>| l@),
            path@ == spec_archive_path(member@, root@),
            r@.map_values(|b: Book| b@) =~= records_of_lines(line_views.take(i as int), path@),
        decreases lines.len() - i,
    {
        proof {
            assert(line_views.take(i + 1).drop_last() =~= line_views.take(i as int));
            assert(line_views.take(i + 1).last() == line_views[i as int]);
            assert(line_views[i as int] == lines@[i as int]@);
        }
        match parse_line(lines[i].as_slice(), path.as_slice()) {
            Ok(b) => {
                r.push(b);
            },
            Err(_) => {},
        }
        proof {
            assert(r@.map_values(|b: Book| b@) =~= records_of_lines(
                line_views.take(i + 1),
                path@,
            ));
        }
        i = i + 1;
    }
    proof {
        assert(line_views.take(lines@.len() as int) =~= lines_of(content@));
    }
    r
}

} // verus!
