//! The LabelQuery ticket file (`.qry`): its criteria blocks, how an existing
//! file's blocks are read back, and how a save builds the new file.
use vstd::prelude::*;

use crate::save::CountedRow;
use crate::text::{chars_of, decimal, ends_with, ends_with_chars, int_text, lines, lines_chars, push_chars, push_decimal, push_int, push_str, split, split_chars, starts_with, starts_with_chars, string_of, trim, trim_chars, trim_end, trim_end_chars};

verus! {

// ---------------------------------------------------------------------------
// Joining lines
// ---------------------------------------------------------------------------

/// Each line followed by `\n`.
pub open spec fn join_lines(ls: Seq<Seq<char>>) -> Seq<char>
    decreases ls.len(),
{
    if ls.len() == 0 {
        Seq::empty()
    } else {
        join_lines(ls.drop_last()) + ls.last().push('\n')
    }
}

/// The lines with `\n` between them.
pub open spec fn join_sep(ls: Seq<Seq<char>>) -> Seq<char>
    decreases ls.len(),
{
    if ls.len() == 0 {
        Seq::empty()
    } else if ls.len() == 1 {
        ls[0]
    } else {
        join_sep(ls.drop_last()).push('\n') + ls.last()
    }
}

pub proof fn lemma_join_lines_push(ls: Seq<Seq<char>>, l: Seq<char>)
    ensures
        join_lines(ls.push(l)) == join_lines(ls) + l.push('\n'),
{
    assert(ls.push(l).drop_last() =~= ls);
}

pub proof fn lemma_join_sep_push(ls: Seq<Seq<char>>, l: Seq<char>)
    requires
        ls.len() > 0,
    ensures
        join_sep(ls.push(l)) == join_sep(ls).push('\n') + l,
{
    assert(ls.push(l).drop_last() =~= ls);
}

// ---------------------------------------------------------------------------
// Criteria blocks
// ---------------------------------------------------------------------------

/// The header line of the criteria block with index `i`: `[Criteria<i>]`.
pub open spec fn criteria_header(i: nat) -> Seq<char> {
    "[Criteria"@ + decimal(i) + "]"@
}

/// A line that opens a criteria block: trimmed, it starts with `[Criteria`
/// and ends with `]`.
pub open spec fn is_criteria_header(line: Seq<char>) -> bool {
    starts_with(trim(line), "[Criteria"@) && ends_with(trim(line), "]"@)
}

/// A block with its first line replaced by the header of index `i`.
pub open spec fn reindexed_block(b: Seq<char>, i: nat) -> Seq<char> {
    join_sep(split(b, '\n').update(0, criteria_header(i)))
}

/// The lines of the criteria block that asks for `qty` tickets of `upc`.
pub open spec fn new_block_lines(idx: nat, upc: Seq<char>, qty: int) -> Seq<Seq<char>> {
    let q = int_text(qty);
    seq![
        criteria_header(idx),
        "Description=UPC equals '"@ + upc + "'"@,
        "BaseQuery="@,
        "SQLConditions=i.InActive=0 and ((i.upc = '"@ + upc
            + "')or (exists(select * from ItemBarcodes ib where (ib.upc=i.upc) and (ib.barcode='"@
            + upc + "'))))"@,
        "SQLOrderBy=i.SKU"@,
        "CopiesDesc="@ + q,
        "SQLCopies="@ + q,
        "PostPrintAction=0"@,
    ] + if qty != 1 {
        seq![
            "CopiesException0Code="@ + upc,
            "CopiesException0Value="@ + q,
            "CopiesExceptionCount=1"@,
        ]
    } else {
        seq!["CopiesExceptionCount=0"@]
    }
}

/// The text of that block, every line ended by `\n`.
pub open spec fn new_block_text(idx: nat, upc: Seq<char>, qty: int) -> Seq<char> {
    join_lines(new_block_lines(idx, upc, qty))
}

/// The lines that open every ticket file; `total` is the number of blocks.
pub open spec fn header_lines(total: nat) -> Seq<Seq<char>> {
    seq![
        "[Header]"@,
        "Application=LabelQuery"@,
        "SaveFileVersion=3"@,
        "[Label]"@,
        "Type=1"@,
        "CriteriaCount="@ + decimal(total),
    ]
}

/// The rows that ask for a ticket, in order.
pub open spec fn ticket_rows(rows: Seq<CountedRow>) -> Seq<CountedRow>
    decreases rows.len(),
{
    if rows.len() == 0 {
        Seq::empty()
    } else if rows.last().has_ticket {
        ticket_rows(rows.drop_last()).push(rows.last())
    } else {
        ticket_rows(rows.drop_last())
    }
}

/// The blocks carried over from an earlier file, re-indexed from 0, each
/// followed by `\n`.
pub open spec fn existing_section(e: Seq<Seq<char>>) -> Seq<char>
    decreases e.len(),
{
    if e.len() == 0 {
        Seq::empty()
    } else {
        existing_section(e.drop_last()) + reindexed_block(e.last(), (e.len() - 1) as nat).push(
            '\n',
        )
    }
}

/// The blocks of the ticket rows `t`, indexed from `offset`.
pub open spec fn new_section(t: Seq<CountedRow>, offset: nat) -> Seq<char>
    decreases t.len(),
{
    if t.len() == 0 {
        Seq::empty()
    } else {
        new_section(t.drop_last(), offset) + new_block_text(
            (offset + t.len() - 1) as nat,
            t.last().upc@,
            t.last().ticket_qty as int,
        )
    }
}

/// The ticket file a save writes: the header, the blocks `e` of the
/// earlier file re-indexed, then one block per ticket row.
pub open spec fn ticket_file(e: Seq<Seq<char>>, rows: Seq<CountedRow>) -> Seq<char> {
    let t = ticket_rows(rows);
    join_lines(header_lines((e.len() + t.len()) as nat)) + existing_section(e) + new_section(
        t,
        e.len() as nat,
    )
}

// ---------------------------------------------------------------------------
// Reading the blocks of an existing file
// ---------------------------------------------------------------------------

/// The state of the reader: inside a block, the block read so far, and the
/// blocks completed.
pub open spec fn extract_step(st: (bool, Seq<char>, Seq<Seq<char>>), line: Seq<char>) -> (
    bool,
    Seq<char>,
    Seq<Seq<char>>,
) {
    let st1 = if is_criteria_header(line) {
        (
            true,
            Seq::<char>::empty(),
            if st.0 && st.1.len() > 0 {
                st.2.push(trim_end(st.1))
            } else {
                st.2
            },
        )
    } else {
        st
    };
    if st1.0 {
        (true, st1.1 + line.push('\n'), st1.2)
    } else {
        st1
    }
}

pub open spec fn extract_from(st: (bool, Seq<char>, Seq<Seq<char>>), ls: Seq<Seq<char>>) -> (
    bool,
    Seq<char>,
    Seq<Seq<char>>,
)
    decreases ls.len(),
{
    if ls.len() == 0 {
        st
    } else {
        extract_step(extract_from(st, ls.drop_last()), ls.last())
    }
}

pub open spec fn extract_finish(st: (bool, Seq<char>, Seq<Seq<char>>)) -> Seq<Seq<char>> {
    if st.0 && st.1.len() > 0 {
        st.2.push(trim_end(st.1))
    } else {
        st.2
    }
}

pub open spec fn reader_start() -> (bool, Seq<char>, Seq<Seq<char>>) {
    (false, Seq::empty(), Seq::empty())
}

/// The criteria blocks of a ticket file: each block runs from a header line
/// to the line before the next header (or the end), every line ended by
/// `\n`, with trailing white space removed.
pub open spec fn criteria_blocks(content: Seq<char>) -> Seq<Seq<char>> {
    extract_finish(extract_from(reader_start(), lines(content)))
}

pub open spec fn views(v: Seq<String>) -> Seq<Seq<char>> {
    v.map_values(|s: String| s@)
}

// ---------------------------------------------------------------------------
// Executable functions
// ---------------------------------------------------------------------------

pub open spec fn line_views(v: Seq<Vec<char>>) -> Seq<Seq<char>> {
    v.map_values(|l: Vec<char>| l@)
}

/// Appends each line followed by `\n`.
fn push_lines(out: &mut Vec<char>, ls: &Vec<Vec<char>>)
    ensures
        final(out)@ == old(out)@ + join_lines(line_views(ls@)),
{
    let ghost start = out@;
    let ghost lv = line_views(ls@);
    let mut i: usize = 0;
    while i < ls.len()
        invariant
            i <= ls.len(),
            lv == line_views(ls@),
            out@ == start + join_lines(lv.take(i as int)),
        decreases ls.len() - i,
    {
        push_line_chars(out, &ls[i]);
        proof {
            assert(lv.take(i + 1) =~= lv.take(i as int).push(ls@[i as int]@));
            lemma_join_lines_push(lv.take(i as int), ls@[i as int]@);
        }
        assert(out@ =~= start + join_lines(lv.take(i + 1)));
        i = i + 1;
    }
    assert(lv.take(ls.len() as int) =~= lv);
}

/// The characters of `a` followed by those of `b`.
fn line2(a: &str, b: &str) -> (r: Vec<char>)
    ensures
        r@ == a@ + b@,
{
    let mut r = chars_of(a);
    push_str(&mut r, b);
    r
}

/// The characters of `a` followed by `b`.
fn line_with(a: &str, b: &Vec<char>) -> (r: Vec<char>)
    ensures
        r@ == a@ + b@,
{
    let mut r = chars_of(a);
    push_chars(&mut r, b);
    r
}

/// The characters of `a`, `b` and `c`, in order.
fn line3(a: &str, b: &str, c: &str) -> (r: Vec<char>)
    ensures
        r@ == a@ + b@ + c@,
{
    let mut r = chars_of(a);
    push_str(&mut r, b);
    push_str(&mut r, c);
    r
}

fn push_line_chars(out: &mut Vec<char>, s: &Vec<char>)
    ensures
        final(out)@ == old(out)@ + s@.push('\n'),
{
    push_chars(out, s);
    out.push('\n');
    assert(final(out)@ =~= old(out)@ + s@.push('\n'));
}

/// `[Criteria<i>]`.
pub fn criteria_header_chars(i: usize) -> (r: Vec<char>)
    ensures
        r@ == criteria_header(i as nat),
{
    let mut r: Vec<char> = Vec::new();
    push_str(&mut r, "[Criteria");
    push_decimal(&mut r, i as u64);
    push_str(&mut r, "]");
    assert(r@ =~= criteria_header(i as nat));
    r
}

/// Whether `line` opens a criteria block.
pub fn is_criteria_header_line(line: &Vec<char>) -> (b: bool)
    ensures
        b == is_criteria_header(line@),
{
    let t = trim_chars(line);
    let open = chars_of("[Criteria");
    let close = chars_of("]");
    starts_with_chars(&t, &open) && ends_with_chars(&t, &close)
}

/// The block `block` with its first line replaced by `[Criteria<index>]`.
pub fn reindex_block(block: &str, index: usize) -> (r: String)
    ensures
        r@ == reindexed_block(block@, index as nat),
{
    let chars = chars_of(block);
    let pieces = split_chars(&chars, '\n');
    let ghost ps = split(block@, '\n').update(0, criteria_header(index as nat));
    let mut out = criteria_header_chars(index);
    assert(ps.take(1) =~= seq![ps[0]]);
    let mut k: usize = 1;
    while k < pieces.len()
        invariant
            1 <= k <= pieces.len(),
            pieces@.len() == split(block@, '\n').len(),
            ps.len() == pieces@.len(),
            ps == split(block@, '\n').update(0, criteria_header(index as nat)),
            forall|j: int| 0 <= j < pieces@.len() ==> #[trigger] pieces@[j]@ == split(block@, '\n')[j],
            out@ == join_sep(ps.take(k as int)),
        decreases pieces.len() - k,
    {
        out.push('\n');
        push_chars(&mut out, &pieces[k]);
        proof {
            lemma_join_sep_push(ps.take(k as int), ps[k as int]);
            assert(ps.take(k as int).push(ps[k as int]) =~= ps.take(k + 1));
        }
        assert(out@ =~= join_sep(ps.take(k + 1)));
        k = k + 1;
    }
    assert(ps.take(pieces.len() as int) =~= ps);
    string_of(&out)
}

/// The criteria blocks of an existing ticket file (see [`criteria_blocks`]).
pub fn criteria_blocks_of(content: &str) -> (r: Vec<String>)
    ensures
        views(r@) == criteria_blocks(content@),
{
    let chars = chars_of(content);
    let ls = lines_chars(&chars);
    let ghost all = lines(content@);
    let mut in_criteria = false;
    let mut current: Vec<char> = Vec::new();
    let mut blocks: Vec<String> = Vec::new();
    let mut i: usize = 0;
    while i < ls.len()
        invariant
            i <= ls.len(),
            ls@.len() == all.len(),
            all == lines(content@),
            forall|j: int| 0 <= j < ls@.len() ==> #[trigger] ls@[j]@ == all[j],
            (in_criteria, current@, views(blocks@)) == extract_from(
                reader_start(),
                all.take(i as int),
            ),
        decreases ls.len() - i,
    {
        let line = &ls[i];
        let ghost before = (in_criteria, current@, views(blocks@));
        if is_criteria_header_line(line) {
            if in_criteria && current.len() > 0 {
                let b = trim_end_chars(&current);
                blocks.push(string_of(&b));
                assert(views(blocks@) =~= before.2.push(trim_end(before.1)));
            }
            in_criteria = true;
            current = Vec::new();
        }
        if in_criteria {
            push_line_chars(&mut current, line);
        }
        assert(all.take(i + 1).drop_last() =~= all.take(i as int));
        assert((in_criteria, current@, views(blocks@)) =~= extract_step(before, all[i as int]));
        i = i + 1;
    }
    assert(all.take(ls.len() as int) =~= all);
    if in_criteria && current.len() > 0 {
        let b = trim_end_chars(&current);
        let ghost before = views(blocks@);
        blocks.push(string_of(&b));
        assert(views(blocks@) =~= before.push(trim_end(current@)));
    }
    blocks
}

/// Appends the block that asks for `qty` tickets of `upc`, with index `idx`.
fn push_new_block(out: &mut Vec<char>, idx: usize, upc: &String, qty: i32)
    ensures
        final(out)@ == old(out)@ + new_block_text(idx as nat, upc@, qty as int),
{
    let mut q: Vec<char> = Vec::new();
    push_int(&mut q, qty as i64);
    assert(q@ =~= int_text(qty as int));
    let u = upc.as_str();
    let mut conditions = line3("SQLConditions=i.InActive=0 and ((i.upc = '", u, "')or (exists(select * from ItemBarcodes ib where (ib.upc=i.upc) and (ib.barcode='");
    push_str(&mut conditions, u);
    push_str(&mut conditions, "'))))");
    let mut ls: Vec<Vec<char>> = Vec::new();
    ls.push(criteria_header_chars(idx));
    ls.push(line3("Description=UPC equals '", u, "'"));
    ls.push(chars_of("BaseQuery="));
    ls.push(conditions);
    ls.push(chars_of("SQLOrderBy=i.SKU"));
    ls.push(line_with("CopiesDesc=", &q));
    ls.push(line_with("SQLCopies=", &q));
    ls.push(chars_of("PostPrintAction=0"));
    if qty != 1 {
        ls.push(line2("CopiesException0Code=", u));
        ls.push(line_with("CopiesException0Value=", &q));
        ls.push(chars_of("CopiesExceptionCount=1"));
    } else {
        ls.push(chars_of("CopiesExceptionCount=0"));
    }
    assert(line_views(ls@) =~= new_block_lines(idx as nat, upc@, qty as int));
    push_lines(out, &ls);
}

/// The number of rows that ask for a ticket.
pub fn ticket_row_count(rows: &Vec<CountedRow>) -> (n: usize)
    ensures
        n == ticket_rows(rows@).len(),
        n <= rows@.len(),
{
    let mut n: usize = 0;
    let mut i: usize = 0;
    while i < rows.len()
        invariant
            i <= rows.len(),
            n == ticket_rows(rows@.take(i as int)).len(),
            n <= i,
        decreases rows.len() - i,
    {
        assert(rows@.take(i + 1).drop_last() =~= rows@.take(i as int));
        if rows[i].has_ticket {
            n = n + 1;
        }
        i = i + 1;
    }
    assert(rows@.take(rows.len() as int) =~= rows@);
    n
}

/// The ticket file a save writes (see [`ticket_file`]), given the blocks
/// `existing` read from the earlier file.
pub fn ticket_file_text(existing: &Vec<String>, rows: &Vec<CountedRow>) -> (r: String)
    requires
        existing@.len() + rows@.len() <= usize::MAX,
    ensures
        r@ == ticket_file(views(existing@), rows@),
{
    let n = ticket_row_count(rows);
    let total = existing.len() + n;
    let ghost e = views(existing@);
    let mut out: Vec<char> = Vec::new();
    let mut count_line: Vec<char> = Vec::new();
    push_str(&mut count_line, "CriteriaCount=");
    push_decimal(&mut count_line, total as u64);
    let mut ls: Vec<Vec<char>> = Vec::new();
    ls.push(chars_of("[Header]"));
    ls.push(chars_of("Application=LabelQuery"));
    ls.push(chars_of("SaveFileVersion=3"));
    ls.push(chars_of("[Label]"));
    ls.push(chars_of("Type=1"));
    ls.push(count_line);
    assert(line_views(ls@) =~= header_lines(total as nat));
    push_lines(&mut out, &ls);
    let ghost head = out@;
    let mut i: usize = 0;
    while i < existing.len()
        invariant
            i <= existing.len(),
            e == views(existing@),
            out@ == head + existing_section(e.take(i as int)),
        decreases existing.len() - i,
    {
        let b = reindex_block(existing[i].as_str(), i);
        let bc = chars_of(b.as_str());
        push_line_chars(&mut out, &bc);
        proof {
            assert(e.take(i + 1).drop_last() =~= e.take(i as int));
            assert(e.take(i + 1).last() == existing@[i as int]@);
        }
        assert(out@ =~= head + existing_section(e.take(i + 1)));
        i = i + 1;
    }
    assert(e.take(existing.len() as int) =~= e);
    let ghost mid = out@;
    let offset = existing.len();
    let mut j: usize = 0;
    let mut k: usize = 0;
    while j < rows.len()
        invariant
            j <= rows.len(),
            offset == existing@.len(),
            offset + rows@.len() <= usize::MAX,
            k == ticket_rows(rows@.take(j as int)).len(),
            k <= j,
            out@ == mid + new_section(ticket_rows(rows@.take(j as int)), offset as nat),
        decreases rows.len() - j,
    {
        let row = &rows[j];
        assert(rows@.take(j + 1).drop_last() =~= rows@.take(j as int));
        if row.has_ticket {
            push_new_block(&mut out, offset + k, &row.upc, row.ticket_qty);
            let ghost t = ticket_rows(rows@.take(j + 1));
            assert(t.drop_last() =~= ticket_rows(rows@.take(j as int)));
            k = k + 1;
        }
        assert(out@ =~= mid + new_section(ticket_rows(rows@.take(j + 1)), offset as nat));
        j = j + 1;
    }
    assert(rows@.take(rows.len() as int) =~= rows@);
    assert(out@ =~= ticket_file(e, rows@));
    string_of(&out)
}

} // verus!
