//! What reading a count file back gives.
use vstd::prelude::*;

use crate::save::{count_file, count_line, is_genuine, CountedRow};
use crate::text::lines;
use crate::text_laws::{
    lemma_lines_join_lines, lemma_no_line_break_concat, lemma_no_line_break_line_ok, line_ok,
    no_line_break,
};
use crate::tickets::{join_lines, lemma_join_lines_push};

verus! {

/// The record of a row in the count file, without its line end:
/// `0,<UPC>,<Count>,`.
pub open spec fn count_record(r: CountedRow) -> Seq<char> {
    "0,"@ + r.upc@ + ","@ + r.count_text@ + ","@
}

/// The records of the genuine rows, in order.
pub open spec fn count_records(rows: Seq<CountedRow>) -> Seq<Seq<char>>
    decreases rows.len(),
{
    if rows.len() == 0 {
        Seq::empty()
    } else if is_genuine(rows.last()) {
        count_records(rows.drop_last()).push(count_record(rows.last()))
    } else {
        count_records(rows.drop_last())
    }
}

/// A row whose UPC and count can stand on one line of the file.
pub open spec fn count_row_fits_line(r: CountedRow) -> bool {
    is_genuine(r) ==> no_line_break(r.upc@) && no_line_break(r.count_text@)
}

proof fn lemma_count_file_joined(rows: Seq<CountedRow>)
    requires
        forall|j: int| 0 <= j < rows.len() ==> count_row_fits_line(#[trigger] rows[j]),
    ensures
        count_file(rows) == join_lines(count_records(rows)),
        forall|k: int|
            0 <= k < count_records(rows).len() ==> line_ok(#[trigger] count_records(rows)[k]),
    decreases rows.len(),
{
    if rows.len() > 0 {
        let r0 = rows.drop_last();
        assert forall|j: int| 0 <= j < r0.len() implies count_row_fits_line(#[trigger] r0[j]) by {
            assert(r0[j] == rows[j]);
        }
        lemma_count_file_joined(r0);
        let last = rows.last();
        assert(last == rows[rows.len() - 1]);
        if is_genuine(last) {
            reveal_strlit("0,");
            reveal_strlit(",");
            reveal_strlit(",\n");
            let rec = count_record(last);
            assert(count_line(last) =~= rec.push('\n'));
            lemma_join_lines_push(count_records(r0), rec);
            assert(no_line_break("0,"@));
            assert(no_line_break(","@));
            lemma_no_line_break_concat("0,"@, last.upc@);
            lemma_no_line_break_concat("0,"@ + last.upc@, ","@);
            lemma_no_line_break_concat("0,"@ + last.upc@ + ","@, last.count_text@);
            lemma_no_line_break_concat("0,"@ + last.upc@ + ","@ + last.count_text@, ","@);
            lemma_no_line_break_line_ok(rec);
            let recs = count_records(rows);
            assert forall|k: int| 0 <= k < recs.len() implies line_ok(#[trigger] recs[k]) by {
                if k < recs.len() - 1 {
                    assert(recs[k] == count_records(r0)[k]);
                }
            }
        } else {
            assert(count_file(rows) =~= count_file(r0));
        }
    }
}

/// The count file holds one line per genuine row, in order, each
/// `0,<UPC>,<Count>,`: reading its lines back gives exactly those records.
pub proof fn law_count_file_lines(rows: Seq<CountedRow>)
    requires
        forall|j: int| 0 <= j < rows.len() ==> count_row_fits_line(#[trigger] rows[j]),
    ensures
        lines(count_file(rows)) == count_records(rows),
{
    lemma_count_file_joined(rows);
    lemma_lines_join_lines(count_records(rows));
}

} // verus!
