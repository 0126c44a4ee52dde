//! What reading a ticket file back gives: the blocks a save carried over,
//! re-indexed, followed by the blocks it added.
use vstd::prelude::*;

use crate::save::CountedRow;
use crate::text::{decimal, int_text, is_white_space, lines, split, starts_with, trim, trim_end};
use crate::text_laws::{lemma_decimal_no_line_break, lemma_int_text_no_line_break, lemma_join_lines_append, lemma_join_sep_newline, lemma_join_sep_split, lemma_lines_join_lines, lemma_no_line_break_concat, lemma_no_line_break_line_ok, lemma_split_join_sep, lemma_split_no_sep, lemma_trim_end_newline, lemma_trim_first, lemma_trim_fixed, line_ok, no_line_break};
use crate::tickets::{criteria_blocks, criteria_header, existing_section, extract_finish, extract_from, extract_step, header_lines, is_criteria_header, join_lines, join_sep, lemma_join_sep_push, new_block_lines, new_section, reader_start, reindexed_block, ticket_file, ticket_rows};

verus! {

/// A block that a later save can carry over unchanged but for its header:
/// it is not empty and does not end in white space, and no line after the
/// first opens a block or ends with a carriage return.
pub open spec fn well_formed_block(b: Seq<char>) -> bool {
    &&& b.len() > 0
    &&& !is_white_space(b.last())
    &&& forall|k: int|
        1 <= k < split(b, '\n').len() ==> line_ok(#[trigger] split(b, '\n')[k])
            && !is_criteria_header(split(b, '\n')[k])
}

/// The blocks `e` of an earlier file, as a save writes them again.
pub open spec fn carried_blocks(e: Seq<Seq<char>>) -> Seq<Seq<char>> {
    Seq::new(e.len(), |i: int| reindexed_block(e[i], i as nat))
}

/// The blocks a save adds for the ticket rows `t`, indexed from `offset`.
pub open spec fn added_blocks(t: Seq<CountedRow>, offset: nat) -> Seq<Seq<char>> {
    Seq::new(
        t.len(),
        |j: int| join_sep(new_block_lines((offset + j) as nat, t[j].upc@, t[j].ticket_qty as int)),
    )
}

/// A ticket row whose UPC can stand on one line of the file.
pub open spec fn ticket_upc_fits_line(r: CountedRow) -> bool {
    r.has_ticket ==> no_line_break(r.upc@)
}

// ---------------------------------------------------------------------------
// Blocks as lists of lines
// ---------------------------------------------------------------------------

spec fn flatten(bs: Seq<Seq<Seq<char>>>) -> Seq<Seq<char>>
    decreases bs.len(),
{
    if bs.len() == 0 {
        Seq::empty()
    } else {
        flatten(bs.drop_last()) + bs.last()
    }
}

spec fn existing_blocks(e: Seq<Seq<char>>) -> Seq<Seq<Seq<char>>> {
    Seq::new(e.len(), |i: int| split(e[i], '\n').update(0, criteria_header(i as nat)))
}

spec fn new_blocks(t: Seq<CountedRow>, offset: nat) -> Seq<Seq<Seq<char>>> {
    Seq::new(
        t.len(),
        |j: int| new_block_lines((offset + j) as nat, t[j].upc@, t[j].ticket_qty as int),
    )
}

spec fn block_shaped(b: Seq<Seq<char>>) -> bool {
    &&& b.len() > 0
    &&& is_criteria_header(b[0])
    &&& forall|k: int| 1 <= k < b.len() ==> !is_criteria_header(#[trigger] b[k])
}

spec fn block_texts(bs: Seq<Seq<Seq<char>>>) -> Seq<Seq<char>> {
    Seq::new(bs.len(), |i: int| trim_end(join_lines(bs[i])))
}

proof fn lemma_flatten_append(a: Seq<Seq<Seq<char>>>, b: Seq<Seq<Seq<char>>>)
    ensures
        flatten(a + b) == flatten(a) + flatten(b),
    decreases b.len(),
{
    if b.len() == 0 {
        assert(a + b =~= a);
        assert(flatten(a) + flatten(b) =~= flatten(a));
    } else {
        lemma_flatten_append(a, b.drop_last());
        assert((a + b).drop_last() =~= a + b.drop_last());
        assert((a + b).last() == b.last());
        assert(flatten(a + b) =~= flatten(a) + flatten(b));
    }
}

proof fn lemma_flatten_lines_ok(bs: Seq<Seq<Seq<char>>>)
    requires
        forall|i: int, k: int| 0 <= i < bs.len() && 0 <= k < bs[i].len() ==> line_ok(bs[i][k]),
    ensures
        forall|m: int| 0 <= m < flatten(bs).len() ==> line_ok(#[trigger] flatten(bs)[m]),
    decreases bs.len(),
{
    if bs.len() > 0 {
        let b0 = bs.drop_last();
        lemma_flatten_lines_ok(b0);
        assert forall|m: int| 0 <= m < flatten(bs).len() implies line_ok(
            #[trigger] flatten(bs)[m],
        ) by {
            if m < flatten(b0).len() {
                assert(flatten(bs)[m] == flatten(b0)[m]);
            } else {
                assert(flatten(bs)[m] == bs.last()[m - flatten(b0).len()]);
                assert(bs.last() == bs[bs.len() - 1]);
            }
        }
    }
}

proof fn lemma_existing_section(e: Seq<Seq<char>>)
    ensures
        existing_section(e) == join_lines(flatten(existing_blocks(e))),
    decreases e.len(),
{
    if e.len() > 0 {
        let e0 = e.drop_last();
        lemma_existing_section(e0);
        assert(existing_blocks(e).drop_last() =~= existing_blocks(e0));
        let b = existing_blocks(e).last();
        lemma_split_no_sep(e.last(), '\n');
        assert(b == split(e.last(), '\n').update(0, criteria_header((e.len() - 1) as nat)));
        lemma_join_sep_newline(b);
        lemma_join_lines_append(flatten(existing_blocks(e0)), b);
    }
}

proof fn lemma_new_section(t: Seq<CountedRow>, offset: nat)
    ensures
        new_section(t, offset) == join_lines(flatten(new_blocks(t, offset))),
    decreases t.len(),
{
    if t.len() > 0 {
        let t0 = t.drop_last();
        lemma_new_section(t0, offset);
        assert(new_blocks(t, offset).drop_last() =~= new_blocks(t0, offset));
        let b = new_blocks(t, offset).last();
        assert(t.last() == t[t.len() - 1]);
        lemma_join_lines_append(flatten(new_blocks(t0, offset)), b);
    }
}

// ---------------------------------------------------------------------------
// The reader over lists of lines
// ---------------------------------------------------------------------------

proof fn lemma_extract_append(
    st: (bool, Seq<char>, Seq<Seq<char>>),
    a: Seq<Seq<char>>,
    b: Seq<Seq<char>>,
)
    ensures
        extract_from(st, a + b) == extract_from(extract_from(st, a), b),
    decreases b.len(),
{
    if b.len() == 0 {
        assert(a + b =~= a);
    } else {
        lemma_extract_append(st, a, b.drop_last());
        assert((a + b).drop_last() =~= a + b.drop_last());
        assert((a + b).last() == b.last());
    }
}

proof fn lemma_extract_plain(st: (bool, Seq<char>, Seq<Seq<char>>), ls: Seq<Seq<char>>)
    requires
        !st.0,
        forall|k: int| 0 <= k < ls.len() ==> !is_criteria_header(#[trigger] ls[k]),
    ensures
        extract_from(st, ls) == st,
    decreases ls.len(),
{
    if ls.len() > 0 {
        lemma_extract_plain(st, ls.drop_last());
        assert(!is_criteria_header(ls[ls.len() - 1]));
    }
}

proof fn lemma_extract_block(st: (bool, Seq<char>, Seq<Seq<char>>), b: Seq<Seq<char>>)
    requires
        block_shaped(b),
    ensures
        extract_from(st, b) == (true, join_lines(b), extract_finish(st)),
    decreases b.len(),
{
    if b.len() == 1 {
        assert(b.drop_last() =~= Seq::<Seq<char>>::empty());
        assert(b.last() == b[0]);
        assert(join_lines(b.drop_last()) =~= Seq::<char>::empty());
        assert(Seq::<char>::empty() + b[0].push('\n') =~= b[0].push('\n'));
        assert(extract_from(st, b.drop_last()) == st);
        assert(is_criteria_header(b[0]));
        assert(join_lines(b) =~= b[0].push('\n'));
        assert(extract_step(st, b[0]) == (
            true,
            Seq::<char>::empty() + b[0].push('\n'),
            extract_finish(st),
        ));
    } else {
        let b0 = b.drop_last();
        assert(b0[0] == b[0]);
        assert forall|k: int| 1 <= k < b0.len() implies !is_criteria_header(#[trigger] b0[k]) by {
            assert(b0[k] == b[k]);
        }
        lemma_extract_block(st, b0);
        assert(!is_criteria_header(b[b.len() - 1]));
        assert(b.last() == b[b.len() - 1]);
        assert(join_lines(b) == join_lines(b0) + b.last().push('\n'));
    }
}

proof fn lemma_extract_blocks(bs: Seq<Seq<Seq<char>>>)
    requires
        forall|i: int| 0 <= i < bs.len() ==> block_shaped(#[trigger] bs[i]),
    ensures
        extract_from(reader_start(), flatten(bs)) == (if bs.len() == 0 {
            reader_start()
        } else {
            (true, join_lines(bs.last()), block_texts(bs.drop_last()))
        }),
        extract_finish(extract_from(reader_start(), flatten(bs))) == block_texts(bs),
    decreases bs.len(),
{
    if bs.len() == 0 {
        assert(block_texts(bs) =~= Seq::<Seq<char>>::empty());
    } else {
        let b0 = bs.drop_last();
        assert forall|i: int| 0 <= i < b0.len() implies block_shaped(#[trigger] b0[i]) by {
            assert(b0[i] == bs[i]);
        }
        lemma_extract_blocks(b0);
        let s0 = extract_from(reader_start(), flatten(b0));
        lemma_extract_append(reader_start(), flatten(b0), bs.last());
        assert(block_shaped(bs[bs.len() - 1]));
        lemma_extract_block(s0, bs.last());
        assert(extract_finish(s0) == block_texts(b0));
        let j = join_lines(bs.last());
        assert(j.len() > 0) by {
            assert(bs.last().len() > 0);
            assert(j == join_lines(bs.last().drop_last()) + bs.last().last().push('\n'));
        }
        assert(block_texts(b0).push(trim_end(j)) =~= block_texts(bs));
    }
}

// ---------------------------------------------------------------------------
// Recognising lines
// ---------------------------------------------------------------------------

proof fn lemma_header_is_header(i: nat)
    ensures
        is_criteria_header(criteria_header(i)),
        no_line_break(criteria_header(i)),
        criteria_header(i).len() > 0,
        !is_white_space(criteria_header(i).last()),
{
    reveal_strlit("[Criteria");
    reveal_strlit("]");
    let h = criteria_header(i);
    let p = "[Criteria"@;
    let d = decimal(i);
    lemma_decimal_no_line_break(i);
    assert(no_line_break(p));
    assert(no_line_break("]"@));
    lemma_no_line_break_concat(p, d);
    lemma_no_line_break_concat(p + d, "]"@);
    assert(h[0] == '[');
    assert(h.last() == ']');
    lemma_trim_fixed(h);
    assert(h.take(9) =~= p);
    assert(h.skip(h.len() - 1) =~= "]"@);
}

/// A line starting with neither white space nor `[` opens no block.
proof fn lemma_not_header(line: Seq<char>)
    requires
        line.len() > 0,
        !is_white_space(line[0]),
        line[0] != '[',
    ensures
        !is_criteria_header(line),
{
    reveal_strlit("[Criteria");
    lemma_trim_first(line);
    if starts_with(trim(line), "[Criteria"@) {
        assert(trim(line).take(9)[0] == "[Criteria"@[0]);
    }
}

proof fn lemma_header_lines_plain(total: nat)
    ensures
        forall|k: int|
            0 <= k < header_lines(total).len() ==> !is_criteria_header(
                #[trigger] header_lines(total)[k],
            ) && line_ok(header_lines(total)[k]),
{
    reveal_strlit("[Header]");
    reveal_strlit("Application=LabelQuery");
    reveal_strlit("SaveFileVersion=3");
    reveal_strlit("[Label]");
    reveal_strlit("Type=1");
    reveal_strlit("CriteriaCount=");
    reveal_strlit("[Criteria");
    let h = header_lines(total);
    lemma_decimal_no_line_break(total);
    assert(no_line_break("CriteriaCount="@));
    lemma_no_line_break_concat("CriteriaCount="@, decimal(total));
    assert forall|k: int| 0 <= k < h.len() implies !is_criteria_header(#[trigger] h[k])
        && line_ok(h[k]) by {
        if k == 0 || k == 3 {
            let l = h[k];
            assert(l[0] == '[');
            assert(l.last() == ']');
            lemma_trim_fixed(l);
            if starts_with(trim(l), "[Criteria"@) {
                assert(l.take(9)[1] == "[Criteria"@[1]);
            }
            assert(no_line_break(l));
            lemma_no_line_break_line_ok(l);
        } else {
            assert(no_line_break(h[k]));
            lemma_no_line_break_line_ok(h[k]);
            lemma_not_header(h[k]);
        }
    }
}

proof fn lemma_new_block_lines(idx: nat, upc: Seq<char>, qty: int)
    requires
        no_line_break(upc),
    ensures
        block_shaped(new_block_lines(idx, upc, qty)),
        forall|k: int|
            0 <= k < new_block_lines(idx, upc, qty).len() ==> line_ok(
                #[trigger] new_block_lines(idx, upc, qty)[k],
            ),
        new_block_lines(idx, upc, qty).len() > 1,
        new_block_lines(idx, upc, qty).last().len() > 0,
        !is_white_space(new_block_lines(idx, upc, qty).last().last()),
{
    reveal_strlit("Description=UPC equals '");
    reveal_strlit("'");
    reveal_strlit("BaseQuery=");
    reveal_strlit("SQLConditions=i.InActive=0 and ((i.upc = '");
    reveal_strlit(
        "')or (exists(select * from ItemBarcodes ib where (ib.upc=i.upc) and (ib.barcode='",
    );
    reveal_strlit("'))))");
    reveal_strlit("SQLOrderBy=i.SKU");
    reveal_strlit("CopiesDesc=");
    reveal_strlit("SQLCopies=");
    reveal_strlit("PostPrintAction=0");
    reveal_strlit("CopiesException0Code=");
    reveal_strlit("CopiesException0Value=");
    reveal_strlit("CopiesExceptionCount=1");
    reveal_strlit("CopiesExceptionCount=0");
    let q = int_text(qty);
    lemma_int_text_no_line_break(qty);
    lemma_header_is_header(idx);
    let l = new_block_lines(idx, upc, qty);
    let d1 = "Description=UPC equals '"@;
    let sq = "'"@;
    let c1 = "SQLConditions=i.InActive=0 and ((i.upc = '"@;
    let c2 =
        "')or (exists(select * from ItemBarcodes ib where (ib.upc=i.upc) and (ib.barcode='"@;
    let c3 = "'))))"@;
    assert(no_line_break(d1));
    assert(no_line_break(sq));
    assert(no_line_break(c1));
    assert(no_line_break(c2));
    assert(no_line_break(c3));
    assert(no_line_break("BaseQuery="@));
    assert(no_line_break("SQLOrderBy=i.SKU"@));
    assert(no_line_break("CopiesDesc="@));
    assert(no_line_break("SQLCopies="@));
    assert(no_line_break("PostPrintAction=0"@));
    assert(no_line_break("CopiesException0Code="@));
    assert(no_line_break("CopiesException0Value="@));
    assert(no_line_break("CopiesExceptionCount=1"@));
    assert(no_line_break("CopiesExceptionCount=0"@));
    lemma_no_line_break_concat(d1, upc);
    lemma_no_line_break_concat(d1 + upc, sq);
    lemma_no_line_break_concat(c1, upc);
    lemma_no_line_break_concat(c1 + upc, c2);
    lemma_no_line_break_concat(c1 + upc + c2, upc);
    lemma_no_line_break_concat(c1 + upc + c2 + upc, c3);
    lemma_no_line_break_concat("CopiesDesc="@, q);
    lemma_no_line_break_concat("SQLCopies="@, q);
    lemma_no_line_break_concat("CopiesException0Code="@, upc);
    lemma_no_line_break_concat("CopiesException0Value="@, q);
    assert forall|k: int| 0 <= k < l.len() implies no_line_break(#[trigger] l[k]) by {}
    assert forall|k: int| 0 <= k < l.len() implies line_ok(#[trigger] l[k]) by {
        lemma_no_line_break_line_ok(l[k]);
    }
    assert forall|k: int| 1 <= k < l.len() implies !is_criteria_header(#[trigger] l[k]) by {
        assert(l[k].len() > 0);
        assert(l[k][0] != '[' && !is_white_space(l[k][0]));
        lemma_not_header(l[k]);
    }
    assert(l.last().last() == '0' || l.last().last() == '1');
}

// ---------------------------------------------------------------------------
// Blocks written again
// ---------------------------------------------------------------------------

/// A well-formed block ends in its last piece, which is not empty.
proof fn lemma_last_piece(b: Seq<char>)
    requires
        well_formed_block(b),
    ensures
        split(b, '\n').len() > 1 ==> split(b, '\n').last().len() > 0 && split(b, '\n').last().last()
            == b.last(),
{
    let ps = split(b, '\n');
    lemma_join_sep_split(b);
    lemma_split_no_sep(b, '\n');
    if ps.len() > 1 {
        lemma_join_sep_push(ps.drop_last(), ps.last());
        assert(ps.drop_last().push(ps.last()) =~= ps);
        if ps.last().len() == 0 {
            assert(b == join_sep(ps.drop_last()).push('\n') + ps.last());
            assert(b.last() == '\n');
            assert(is_white_space('\n'));
        }
    }
}

proof fn lemma_reindexed_block(b: Seq<char>, i: nat)
    requires
        well_formed_block(b),
    ensures
        split(reindexed_block(b, i), '\n') == split(b, '\n').update(0, criteria_header(i)),
        well_formed_block(reindexed_block(b, i)),
        trim_end(reindexed_block(b, i).push('\n')) == reindexed_block(b, i),
{
    let ps = split(b, '\n');
    let qs = ps.update(0, criteria_header(i));
    let r = reindexed_block(b, i);
    lemma_split_no_sep(b, '\n');
    lemma_header_is_header(i);
    assert forall|j: int, k: int| 0 <= j < qs.len() && 0 <= k < qs[j].len() implies qs[j][k]
        != '\n' by {
        if j == 0 {
        } else {
            assert(qs[j] == ps[j]);
        }
    }
    lemma_split_join_sep(qs);
    lemma_last_piece(b);
    if qs.len() == 1 {
        assert(r == qs[0]);
    } else {
        lemma_join_sep_push(qs.drop_last(), qs.last());
        assert(qs.drop_last().push(qs.last()) =~= qs);
        assert(qs.last() == ps.last());
        assert(r == join_sep(qs.drop_last()).push('\n') + qs.last());
        assert(r.last() == qs.last().last());
    }
    assert forall|k: int| 1 <= k < split(r, '\n').len() implies line_ok(
        #[trigger] split(r, '\n')[k],
    ) && !is_criteria_header(split(r, '\n')[k]) by {
        assert(split(r, '\n')[k] == ps[k]);
    }
    lemma_trim_end_newline(r);
}

proof fn lemma_added_block(idx: nat, upc: Seq<char>, qty: int)
    requires
        no_line_break(upc),
    ensures
        well_formed_block(join_sep(new_block_lines(idx, upc, qty))),
        trim_end(join_lines(new_block_lines(idx, upc, qty))) == join_sep(
            new_block_lines(idx, upc, qty),
        ),
{
    let l = new_block_lines(idx, upc, qty);
    let s = join_sep(l);
    lemma_new_block_lines(idx, upc, qty);
    assert forall|j: int, k: int| 0 <= j < l.len() && 0 <= k < l[j].len() implies l[j][k]
        != '\n' by {
        assert(line_ok(l[j]));
    }
    lemma_split_join_sep(l);
    lemma_join_sep_push(l.drop_last(), l.last());
    assert(l.drop_last().push(l.last()) =~= l);
    assert(s == join_sep(l.drop_last()).push('\n') + l.last());
    assert(s.last() == l.last().last());
    lemma_join_sep_newline(l);
    lemma_trim_end_newline(s);
}

proof fn lemma_ticket_rows_fit(rows: Seq<CountedRow>)
    requires
        forall|j: int| 0 <= j < rows.len() ==> ticket_upc_fits_line(#[trigger] rows[j]),
    ensures
        forall|j: int|
            0 <= j < ticket_rows(rows).len() ==> no_line_break(#[trigger] ticket_rows(rows)[j].upc@),
    decreases rows.len(),
{
    if rows.len() > 0 {
        let r0 = rows.drop_last();
        assert forall|j: int| 0 <= j < r0.len() implies ticket_upc_fits_line(#[trigger] r0[j]) by {
            assert(r0[j] == rows[j]);
        }
        lemma_ticket_rows_fit(r0);
        assert(ticket_upc_fits_line(rows[rows.len() - 1]));
        let last = rows.last();
        assert(last == rows[rows.len() - 1]);
        if last.has_ticket {
            let t = ticket_rows(rows);
            assert(t == ticket_rows(r0).push(last));
            assert forall|j: int| 0 <= j < t.len() implies no_line_break(#[trigger] t[j].upc@) by {
                if j < t.len() - 1 {
                    assert(t[j] == ticket_rows(r0)[j]);
                }
            }
        }
    }
}

// ---------------------------------------------------------------------------
// The law
// ---------------------------------------------------------------------------

/// Tickets accumulate across saves: reading back the ticket file a save
/// writes gives the blocks of the earlier file, re-indexed from 0 and
/// otherwise unchanged, followed by one block per ticket row, in order.
/// Every block read back can be carried over by the next save in the same
/// way.
pub proof fn law_ticket_file_accumulates(e: Seq<Seq<char>>, rows: Seq<CountedRow>)
    requires
        forall|i: int| 0 <= i < e.len() ==> well_formed_block(#[trigger] e[i]),
        forall|j: int| 0 <= j < rows.len() ==> ticket_upc_fits_line(#[trigger] rows[j]),
    ensures
        criteria_blocks(ticket_file(e, rows)) == carried_blocks(e) + added_blocks(
            ticket_rows(rows),
            e.len() as nat,
        ),
        forall|k: int|
            0 <= k < criteria_blocks(ticket_file(e, rows)).len() ==> well_formed_block(
                #[trigger] criteria_blocks(ticket_file(e, rows))[k],
            ),
        criteria_blocks(ticket_file(e, rows)).len() == e.len() + ticket_rows(rows).len(),
{
    let t = ticket_rows(rows);
    lemma_ticket_rows_fit(rows);
    let total = (e.len() + t.len()) as nat;
    let h = header_lines(total);
    let eb = existing_blocks(e);
    let nb = new_blocks(t, e.len() as nat);
    let bs = eb + nb;
    lemma_existing_section(e);
    lemma_new_section(t, e.len() as nat);
    lemma_flatten_append(eb, nb);
    lemma_join_lines_append(flatten(eb), flatten(nb));
    lemma_join_lines_append(h, flatten(bs));
    let all = h + flatten(bs);
    assert(ticket_file(e, rows) == join_lines(all));
    // every block is a header followed by plain lines, each fit for `lines`
    assert forall|i: int| 0 <= i < bs.len() implies block_shaped(#[trigger] bs[i]) && (forall|
        k: int,
    | 0 <= k < bs[i].len() ==> line_ok(#[trigger] bs[i][k])) by {
        if i < eb.len() {
            assert(bs[i] == eb[i]);
            let ps = split(e[i], '\n');
            lemma_split_no_sep(e[i], '\n');
            lemma_header_is_header(i as nat);
            lemma_no_line_break_line_ok(criteria_header(i as nat));
            assert(well_formed_block(e[i]));
            assert forall|k: int| 1 <= k < bs[i].len() implies !is_criteria_header(
                #[trigger] bs[i][k],
            ) by {
                assert(bs[i][k] == ps[k]);
            }
            assert forall|k: int| 0 <= k < bs[i].len() implies line_ok(#[trigger] bs[i][k]) by {
                if k > 0 {
                    assert(bs[i][k] == ps[k]);
                }
            }
        } else {
            let j = i - eb.len();
            assert(bs[i] == nb[j]);
            assert(no_line_break(t[j].upc@));
            lemma_new_block_lines((e.len() + j) as nat, t[j].upc@, t[j].ticket_qty as int);
        }
    }
    assert forall|i: int, k: int| 0 <= i < bs.len() && 0 <= k < bs[i].len() implies line_ok(
        bs[i][k],
    ) by {
        assert(block_shaped(bs[i]) && (forall|k: int|
            0 <= k < bs[i].len() ==> line_ok(#[trigger] bs[i][k])));
    }
    lemma_flatten_lines_ok(bs);
    lemma_header_lines_plain(total);
    assert forall|m: int| 0 <= m < all.len() implies line_ok(#[trigger] all[m]) by {
        if m < h.len() {
            assert(all[m] == h[m]);
        } else {
            assert(all[m] == flatten(bs)[m - h.len()]);
        }
    }
    lemma_lines_join_lines(all);
    lemma_extract_append(reader_start(), h, flatten(bs));
    lemma_extract_plain(reader_start(), h);
    lemma_extract_blocks(bs);
    let got = criteria_blocks(ticket_file(e, rows));
    assert(got == block_texts(bs));
    let want = carried_blocks(e) + added_blocks(t, e.len() as nat);
    assert forall|i: int| 0 <= i < got.len() implies got[i] == want[i] && well_formed_block(
        got[i],
    ) by {
        if i < e.len() {
            assert(bs[i] == eb[i]);
            lemma_split_no_sep(e[i], '\n');
            lemma_join_sep_newline(eb[i]);
            lemma_reindexed_block(e[i], i as nat);
            assert(want[i] == reindexed_block(e[i], i as nat));
        } else {
            let j = i - e.len();
            assert(bs[i] == nb[j]);
            assert(no_line_break(t[j].upc@));
            lemma_added_block((e.len() + j) as nat, t[j].upc@, t[j].ticket_qty as int);
            assert(want[i] == added_blocks(t, e.len() as nat)[j]);
        }
    }
    assert(got =~= want);
}

/// A block a save added is carried over by the next save unchanged: its
/// header already holds its index.
proof fn lemma_added_block_kept(idx: nat, upc: Seq<char>, qty: int)
    requires
        no_line_break(upc),
    ensures
        reindexed_block(join_sep(new_block_lines(idx, upc, qty)), idx) == join_sep(
            new_block_lines(idx, upc, qty),
        ),
{
    let l = new_block_lines(idx, upc, qty);
    lemma_new_block_lines(idx, upc, qty);
    assert forall|j: int, k: int| 0 <= j < l.len() && 0 <= k < l[j].len() implies l[j][k]
        != '\n' by {
        assert(line_ok(l[j]));
    }
    lemma_split_join_sep(l);
    assert(l.update(0, criteria_header(idx)) =~= l);
}

/// All tickets of successive saves end up in one file: starting with no
/// ticket file, after one save and then another, reading the file back
/// gives the blocks of the first save's tickets and then those of the
/// second's, numbered on from 0.
pub proof fn law_tickets_of_successive_saves(first: Seq<CountedRow>, second: Seq<CountedRow>)
    requires
        forall|j: int| 0 <= j < first.len() ==> ticket_upc_fits_line(#[trigger] first[j]),
        forall|j: int| 0 <= j < second.len() ==> ticket_upc_fits_line(#[trigger] second[j]),
    ensures
        criteria_blocks(ticket_file(criteria_blocks(ticket_file(Seq::empty(), first)), second))
            == added_blocks(ticket_rows(first) + ticket_rows(second), 0),
{
    let none = Seq::<Seq<char>>::empty();
    law_ticket_file_accumulates(none, first);
    let e1 = criteria_blocks(ticket_file(none, first));
    let t1 = ticket_rows(first);
    let t2 = ticket_rows(second);
    assert(carried_blocks(none) =~= Seq::<Seq<char>>::empty());
    assert(e1 =~= added_blocks(t1, 0));
    law_ticket_file_accumulates(e1, second);
    lemma_ticket_rows_fit(first);
    lemma_ticket_rows_fit(second);
    assert forall|i: int| 0 <= i < e1.len() implies carried_blocks(e1)[i] == e1[i] by {
        assert(e1[i] == join_sep(new_block_lines(i as nat, t1[i].upc@, t1[i].ticket_qty as int)));
        lemma_added_block_kept(i as nat, t1[i].upc@, t1[i].ticket_qty as int);
    }
    assert(carried_blocks(e1) =~= e1);
    let all = added_blocks(t1 + t2, 0);
    assert forall|i: int| 0 <= i < all.len() implies all[i] == (e1 + added_blocks(
        t2,
        e1.len() as nat,
    ))[i] by {
        if i < t1.len() {
            assert((t1 + t2)[i] == t1[i]);
        } else {
            assert((t1 + t2)[i] == t2[i - t1.len()]);
        }
    }
    assert(all =~= e1 + added_blocks(t2, e1.len() as nat));
}

} // verus!
