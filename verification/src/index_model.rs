//! The model of the on-disk index: the sequence of committed documents, in
//! the order they were added. The index engine owns its storage and ranking;
//! what ingestion guarantees about the committed set is stated and proved
//! here, over that model.

use vstd::prelude::*;
use crate::catalog::{line_book, line_ok, records_of_lines, BookView};

verus! {

/// Whether the committed document set holds a document with this identifier.
pub open spec fn index_has_id(docs: Seq<BookView>, id: u64) -> bool {
    exists|i: int| 0 <= i < docs.len() && docs[i].id == id
}

/// Committing a batch appends its documents to the committed set.
pub proof fn lemma_records_append(a: Seq<Seq<u8>>, b: Seq<Seq<u8>>, path: Seq<u8>)
    ensures
        records_of_lines(a + b, path) == records_of_lines(a, path) + records_of_lines(b, path),
    decreases b.len(),
{
    if b.len() == 0 {
        assert(a + b =~= a);
        assert(records_of_lines(a, path) + records_of_lines(b, path) =~= records_of_lines(
            a,
            path,
        ));
    } else {
        lemma_records_append(a, b.drop_last(), path);
        assert((a + b).drop_last() =~= a + b.drop_last());
        assert((a + b).last() == b.last());
        assert(records_of_lines(a + b, path) =~= records_of_lines(a, path) + records_of_lines(
            b,
            path,
        ));
    }
}

/// An accepted line yields exactly one document, with the line's own
/// identifier, author and title; a rejected line yields none, and neither
/// disturbs the records of the lines around it.
pub proof fn lemma_line_contribution(l: Seq<u8>, path: Seq<u8>)
    ensures
        line_ok(l) ==> records_of_lines(seq![l], path) == seq![line_book(l, path)],
        !line_ok(l) ==> records_of_lines(seq![l], path) == Seq::<BookView>::empty(),
{
    assert(seq![l].len() == 1);
    assert(seq![l].last() == l);
    assert(seq![l].drop_last() =~= Seq::<Seq<u8>>::empty());
    assert(records_of_lines(Seq::<Seq<u8>>::empty(), path) == Seq::<BookView>::empty());
    if line_ok(l) {
        assert(records_of_lines(seq![l], path) =~= seq![line_book(l, path)]);
    } else {
        assert(records_of_lines(seq![l], path) =~= Seq::<BookView>::empty());
    }
}

/// Every document of a batch comes from some accepted source line, and
/// carries that line's fields: ingestion invents nothing and changes
/// nothing. Together with `line_book`, this is the round trip from a source
/// line to the stored document.
pub proof fn lemma_ingest_source(lines: Seq<Seq<u8>>, path: Seq<u8>, k: int)
    requires
        0 <= k < records_of_lines(lines, path).len(),
    ensures
        exists|i: int| 0 <= i < lines.len() && line_ok(lines[i]) && records_of_lines(lines, path)[k]
            == line_book(lines[i], path),
    decreases lines.len(),
{
    let docs = records_of_lines(lines, path);
    let pre = records_of_lines(lines.drop_last(), path);
    if k < pre.len() {
        lemma_ingest_source(lines.drop_last(), path, k);
        let i = choose|i: int| 0 <= i < lines.drop_last().len() && line_ok(lines.drop_last()[i])
            && pre[k] == line_book(lines.drop_last()[i], path);
        assert(lines[i] == lines.drop_last()[i]);
        assert(docs[k] == pre[k]);
    } else {
        assert(line_ok(lines.last()));
        assert(docs[k] == line_book(lines.last(), path));
        assert(lines[lines.len() - 1] == lines.last());
    }
}

/// The round trip from a source line to a point lookup: when exactly one
/// accepted line of a batch carries an identifier, every document of the
/// batch with that identifier holds that line's title and author — so the
/// pair a point lookup returns is the pair of the source line, whichever
/// matching document the engine picks.
pub proof fn lemma_lookup_round_trip(lines: Seq<Seq<u8>>, path: Seq<u8>, i: int, k: int)
    requires
        0 <= i < lines.len(),
        line_ok(lines[i]),
        forall|j: int|
            0 <= j < lines.len() && line_ok(#[trigger] lines[j]) && j != i ==> line_book(
                lines[j],
                path,
            ).id != line_book(lines[i], path).id,
        0 <= k < records_of_lines(lines, path).len(),
        records_of_lines(lines, path)[k].id == line_book(lines[i], path).id,
    ensures
        records_of_lines(lines, path)[k] == line_book(lines[i], path),
        records_of_lines(lines, path)[k].book_title == crate::catalog::line_fields(lines[i])[2],
        records_of_lines(lines, path)[k].author_name == crate::catalog::line_fields(lines[i])[0],
{
    lemma_ingest_source(lines, path, k);
    let j = choose|j: int|
        0 <= j < lines.len() && line_ok(lines[j]) && records_of_lines(lines, path)[k] == line_book(
            lines[j],
            path,
        );
    assert(j == i);
}

/// Re-running ingestion only appends: a point lookup for an identifier that
/// the index already holds still finds a document after a new batch is
/// committed, whatever the engine's tie-break among duplicates.
pub proof fn lemma_reingest_keeps_id(docs: Seq<BookView>, more: Seq<BookView>, id: u64)
    requires
        index_has_id(docs, id),
    ensures
        index_has_id(docs + more, id),
{
    let i = choose|i: int| 0 <= i < docs.len() && docs[i].id == id;
    assert((docs + more)[i].id == id);
}

} // verus!
