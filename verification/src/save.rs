//! The count file (`.txt`) of a stock take and the decision of which files a
//! save writes.
use vstd::prelude::*;

use crate::clock::{local_time_now, time_fields_ok, LocalTime};
use crate::text::{
    chars_of, decimal, digit, push_chars, push_decimal, push_str, same_as_str, string_of,
};

verus! {

/// One counted row of a stock take, as the save logic reads it.
///
/// `count_text` is the count already written with four decimals (`12.0000`),
/// and `count_is_zero` says whether the count was zero.
pub struct CountedRow {
    pub upc: String,
    pub count_text: String,
    pub count_is_zero: bool,
    pub has_ticket: bool,
    pub ticket_qty: i32,
}

/// The ticket quantity of a row that does not give one.
pub fn default_ticket_qty() -> (q: i32)
    ensures
        q == 1,
{
    1
}

/// A row whose count belongs in the count file: it has a non-zero count, or
/// it is not only there to print a ticket.
pub open spec fn is_genuine(r: CountedRow) -> bool {
    !r.count_is_zero || !r.has_ticket
}

/// The line the count file holds for a row: `0,<UPC>,<Count>,`.
pub open spec fn count_line(r: CountedRow) -> Seq<char> {
    "0,"@ + r.upc@ + ","@ + r.count_text@ + ",\n"@
}

/// The count file: one line per genuine row, in order.
pub open spec fn count_file(rows: Seq<CountedRow>) -> Seq<char>
    decreases rows.len(),
{
    if rows.len() == 0 {
        Seq::empty()
    } else {
        count_file(rows.drop_last()) + if is_genuine(rows.last()) {
            count_line(rows.last())
        } else {
            Seq::empty()
        }
    }
}

/// Whether a save writes the count file.
pub open spec fn has_genuine_row(rows: Seq<CountedRow>) -> bool {
    exists|i: int| 0 <= i < rows.len() && is_genuine(#[trigger] rows[i])
}

/// Whether a save writes the ticket file.
pub open spec fn has_ticket_row(rows: Seq<CountedRow>) -> bool {
    exists|i: int| 0 <= i < rows.len() && (#[trigger] rows[i]).has_ticket
}

pub fn is_genuine_row(r: &CountedRow) -> (b: bool)
    ensures
        b == is_genuine(*r),
{
    !r.count_is_zero || !r.has_ticket
}

/// The text of the count file for `rows`.
pub fn count_file_text(rows: &Vec<CountedRow>) -> (r: String)
    ensures
        r@ == count_file(rows@),
{
    let mut out: Vec<char> = Vec::new();
    let mut i: usize = 0;
    while i < rows.len()
        invariant
            i <= rows.len(),
            out@ == count_file(rows@.take(i as int)),
        decreases rows.len() - i,
    {
        let row = &rows[i];
        assert(rows@.take(i + 1).drop_last() =~= rows@.take(i as int));
        if is_genuine_row(row) {
            push_str(&mut out, "0,");
            push_str(&mut out, row.upc.as_str());
            push_str(&mut out, ",");
            push_str(&mut out, row.count_text.as_str());
            push_str(&mut out, ",\n");
            assert(out@ =~= count_file(rows@.take(i + 1)));
        }
        i = i + 1;
    }
    assert(rows@.take(rows.len() as int) =~= rows@);
    string_of(&out)
}

/// Whether some row belongs in the count file.
pub fn writes_count_file(rows: &Vec<CountedRow>) -> (b: bool)
    ensures
        b == has_genuine_row(rows@),
{
    let mut i: usize = 0;
    while i < rows.len()
        invariant
            i <= rows.len(),
            forall|j: int| 0 <= j < i ==> !is_genuine(#[trigger] rows@[j]),
        decreases rows.len() - i,
    {
        if is_genuine_row(&rows[i]) {
            return true;
        }
        i = i + 1;
    }
    false
}

/// Whether some row asks for a ticket.
pub fn writes_ticket_file(rows: &Vec<CountedRow>) -> (b: bool)
    ensures
        b == has_ticket_row(rows@),
{
    let mut i: usize = 0;
    while i < rows.len()
        invariant
            i <= rows.len(),
            forall|j: int| 0 <= j < i ==> !(#[trigger] rows@[j]).has_ticket,
        decreases rows.len() - i,
    {
        if rows[i].has_ticket {
            return true;
        }
        i = i + 1;
    }
    false
}

// ---------------------------------------------------------------------------
// The files of a save
// ---------------------------------------------------------------------------

/// `stocktake-<timestamp>.txt`.
pub open spec fn count_file_name(timestamp: Seq<char>) -> Seq<char> {
    "stocktake-"@ + timestamp + ".txt"@
}

/// `tickets-<timestamp>.qry`.
pub open spec fn ticket_file_name(timestamp: Seq<char>) -> Seq<char> {
    "tickets-"@ + timestamp + ".qry"@
}

/// What a save writes.
pub struct SavePlan {
    /// The local time of the save, `YYYY-MM-DD-HH-MM-SS`.
    pub timestamp: String,
    /// The name of the count file, reported to the browser.
    pub count_file_name: String,
    /// The text of the count file, when it is written.
    pub count_file: Option<String>,
    /// The name of the ticket file, when one is written (in `tickets/`).
    pub ticket_file_name: Option<String>,
    /// The local time read from the clock, when the plan was made now.
    pub time: Option<LocalTime>,
}

/// The plan of a save of `rows` at `timestamp`: the count file holds the
/// genuine rows and is written only when there is one; the ticket file is
/// written when some row asks for a ticket.
pub open spec fn is_save_plan(p: SavePlan, rows: Seq<CountedRow>, timestamp: Seq<char>) -> bool {
    &&& p.timestamp@ == timestamp
    &&& p.count_file_name@ == count_file_name(timestamp)
    &&& (p.count_file is Some <==> has_genuine_row(rows))
    &&& (p.count_file matches Some(t) ==> t@ == count_file(rows))
    &&& (p.ticket_file_name is Some <==> has_ticket_row(rows))
    &&& (p.ticket_file_name matches Some(n) ==> n@ == ticket_file_name(timestamp))
}

fn name_around(before: &str, middle: &str, after: &str) -> (r: String)
    ensures
        r@ == before@ + middle@ + after@,
{
    let mut out: Vec<char> = Vec::new();
    push_str(&mut out, before);
    push_str(&mut out, middle);
    push_str(&mut out, after);
    assert(out@ =~= before@ + middle@ + after@);
    string_of(&out)
}

/// The plan of a save of `rows` at `timestamp`.
pub fn plan_save_at(rows: &Vec<CountedRow>, timestamp: String) -> (p: SavePlan)
    ensures
        is_save_plan(p, rows@, timestamp@),
{
    let count_file_name = name_around("stocktake-", timestamp.as_str(), ".txt");
    let count_file = if writes_count_file(rows) {
        Some(count_file_text(rows))
    } else {
        None
    };
    let ticket_file_name = if writes_ticket_file(rows) {
        Some(name_around("tickets-", timestamp.as_str(), ".qry"))
    } else {
        None
    };
    SavePlan { timestamp, count_file_name, count_file, ticket_file_name, time: None }
}

/// `k` zeros.
pub open spec fn zeros(k: nat) -> Seq<char> {
    Seq::new(k, |i: int| '0')
}

/// Digits with zeros in front, to at least four.
pub open spec fn four_wide(t: Seq<char>) -> Seq<char> {
    if t.len() < 4 {
        zeros((4 - t.len()) as nat) + t
    } else {
        t
    }
}

/// A year as `%Y` writes it: four digits, zero-padded, for a year from 0
/// to 9999; otherwise its sign and then at least four digits.
pub open spec fn year_text(y: int) -> Seq<char> {
    if 0 <= y <= 9999 {
        four_wide(decimal(y as nat))
    } else if y < 0 {
        seq!['-'] + four_wide(decimal((-y) as nat))
    } else {
        seq!['+'] + four_wide(decimal(y as nat))
    }
}

/// A number below 100 as two digits.
pub open spec fn two_digits(n: nat) -> Seq<char> {
    if n < 10 {
        seq!['0'] + decimal(n)
    } else {
        decimal(n)
    }
}

/// A time written `YYYY-MM-DD-HH-MM-SS`, as `%Y-%m-%d-%H-%M-%S` writes it;
/// the second of a leap second is 60.
pub open spec fn timestamp_of(y: i32, mo: u32, d: u32, h: u32, mi: u32, s: u32, ns: u32) -> Seq<char> {
    let sec: nat = if ns >= 1_000_000_000 {
        (s + 1) as nat
    } else {
        s as nat
    };
    year_text(y as int) + seq!['-'] + two_digits(mo as nat) + seq!['-'] + two_digits(d as nat)
        + seq!['-'] + two_digits(h as nat) + seq!['-'] + two_digits(mi as nat) + seq!['-']
        + two_digits(sec)
}

fn push_four_wide(out: &mut Vec<char>, n: u32)
    ensures
        final(out)@ == old(out)@ + four_wide(decimal(n as nat)),
{
    let mut t: Vec<char> = Vec::new();
    push_decimal(&mut t, n as u64);
    assert(t@ =~= decimal(n as nat));
    if t.len() < 4 {
        let k = 4 - t.len();
        let mut z: Vec<char> = Vec::new();
        while z.len() < k
            invariant
                z.len() <= k,
                z@ =~= zeros(z.len() as nat),
            decreases k - z.len(),
        {
            z.push('0');
        }
        push_chars(out, &z);
    }
    push_chars(out, &t);
    assert(final(out)@ =~= old(out)@ + four_wide(decimal(n as nat)));
}

fn push_two_digits(out: &mut Vec<char>, n: u32)
    requires
        n < 100,
    ensures
        final(out)@ == old(out)@ + two_digits(n as nat),
{
    if n < 10 {
        out.push('0');
    }
    push_decimal(out, n as u64);
    assert(final(out)@ =~= old(out)@ + two_digits(n as nat));
}

/// The text of a local time (see [`timestamp_of`]).
pub fn timestamp_text(y: i32, mo: u32, d: u32, h: u32, mi: u32, s: u32, ns: u32) -> (r: String)
    requires
        time_fields_ok(y, mo, d, h, mi, s, ns),
    ensures
        r@ == timestamp_of(y, mo, d, h, mi, s, ns),
{
    let mut out: Vec<char> = Vec::new();
    if 0 <= y && y <= 9999 {
        push_four_wide(&mut out, y as u32);
    } else if y < 0 {
        out.push('-');
        push_four_wide(&mut out, (-y) as u32);
    } else {
        out.push('+');
        push_four_wide(&mut out, y as u32);
    }
    assert(out@ =~= year_text(y as int));
    let sec: u32 = if ns >= 1_000_000_000 {
        s + 1
    } else {
        s
    };
    out.push('-');
    push_two_digits(&mut out, mo);
    out.push('-');
    push_two_digits(&mut out, d);
    out.push('-');
    push_two_digits(&mut out, h);
    out.push('-');
    push_two_digits(&mut out, mi);
    out.push('-');
    push_two_digits(&mut out, sec);
    assert(out@ =~= timestamp_of(y, mo, d, h, mi, s, ns));
    string_of(&out)
}

/// The plan of a save of `rows` now: as [`plan_save_at`] at the local time
/// it reads, written `YYYY-MM-DD-HH-MM-SS` from the clock's fields in that
/// order, which it reports with the time read.
pub fn plan_save(rows: &Vec<CountedRow>) -> (p: SavePlan)
    ensures
        is_save_plan(p, rows@, p.timestamp@),
        p.time matches Some(t) && time_fields_ok(t@.0, t@.1, t@.2, t@.3, t@.4, t@.5, t@.6)
            && p.timestamp@ == timestamp_of(t@.0, t@.1, t@.2, t@.3, t@.4, t@.5, t@.6),
        exists|y: i32, mo: u32, d: u32, h: u32, mi: u32, s: u32, ns: u32|
            time_fields_ok(y, mo, d, h, mi, s, ns) && p.timestamp@ == #[trigger] timestamp_of(
                y,
                mo,
                d,
                h,
                mi,
                s,
                ns,
            ),
{
    let t = local_time_now();
    let timestamp = timestamp_text(
        t.year(),
        t.month(),
        t.day(),
        t.hour(),
        t.minute(),
        t.second(),
        t.nanosecond(),
    );
    let mut p = plan_save_at(rows, timestamp);
    proof {
        let v = t@;
        assert(time_fields_ok(v.0, v.1, v.2, v.3, v.4, v.5, v.6) && p.timestamp@ == timestamp_of(
            v.0,
            v.1,
            v.2,
            v.3,
            v.4,
            v.5,
            v.6,
        ));
    }
    p.time = Some(t);
    p
}

proof fn lemma_two_digits(n: nat)
    requires
        n < 100,
    ensures
        two_digits(n) == seq![digit(n / 10), digit(n % 10)],
{
    if n >= 10 {
        assert(decimal(n / 10) == seq![digit(n / 10)]);
    }
    assert(two_digits(n) =~= seq![digit(n / 10), digit(n % 10)]);
}

/// A save's timestamp shows the time's fields in order: the year, then,
/// each after a `-`, two digits each of the month, day, hour, minute and
/// second (60 in a leap second).
pub proof fn law_timestamp_fields(y: i32, mo: u32, d: u32, h: u32, mi: u32, s: u32, ns: u32)
    requires
        time_fields_ok(y, mo, d, h, mi, s, ns),
    ensures
        ({
            let t = timestamp_of(y, mo, d, h, mi, s, ns);
            let n = t.len();
            let sec: int = if ns >= 1_000_000_000 {
                s + 1
            } else {
                s as int
            };
            &&& n == year_text(y as int).len() + 15
            &&& t.take(n - 15) == year_text(y as int)
            &&& t[n - 15] == '-' && t[n - 12] == '-' && t[n - 9] == '-' && t[n - 6] == '-'
                && t[n - 3] == '-'
            &&& t[n - 14] == digit(mo as nat / 10) && t[n - 13] == digit(mo as nat % 10)
            &&& t[n - 11] == digit(d as nat / 10) && t[n - 10] == digit(d as nat % 10)
            &&& t[n - 8] == digit(h as nat / 10) && t[n - 7] == digit(h as nat % 10)
            &&& t[n - 5] == digit(mi as nat / 10) && t[n - 4] == digit(mi as nat % 10)
            &&& t[n - 2] == digit(sec as nat / 10) && t[n - 1] == digit(sec as nat % 10)
        }),
{
    let sec: nat = if ns >= 1_000_000_000 {
        (s + 1) as nat
    } else {
        s as nat
    };
    lemma_two_digits(mo as nat);
    lemma_two_digits(d as nat);
    lemma_two_digits(h as nat);
    lemma_two_digits(mi as nat);
    lemma_two_digits(sec);
    let t = timestamp_of(y, mo, d, h, mi, s, ns);
    let yt = year_text(y as int);
    let dash = seq!['-'];
    let tail = dash + two_digits(mo as nat) + dash + two_digits(d as nat) + dash + two_digits(
        h as nat,
    ) + dash + two_digits(mi as nat) + dash + two_digits(sec);
    assert(t =~= yt + tail);
    let digits = seq![
        '-',
        digit(mo as nat / 10),
        digit(mo as nat % 10),
        '-',
        digit(d as nat / 10),
        digit(d as nat % 10),
        '-',
        digit(h as nat / 10),
        digit(h as nat % 10),
        '-',
        digit(mi as nat / 10),
        digit(mi as nat % 10),
        '-',
        digit(sec / 10),
        digit(sec % 10),
    ];
    assert(tail =~= digits);
    let n = t.len();
    assert(n == yt.len() + 15);
    assert(t.take(n - 15) =~= yt);
    assert forall|k: int| 0 <= k < 15 implies t[yt.len() + k] == #[trigger] digits[k] by {
        assert(t[yt.len() + k] == (yt + tail)[yt.len() + k]);
    }
    assert(t[n - 15] == digits[0]);
    assert(t[n - 14] == digits[1]);
    assert(t[n - 13] == digits[2]);
    assert(t[n - 12] == digits[3]);
    assert(t[n - 11] == digits[4]);
    assert(t[n - 10] == digits[5]);
    assert(t[n - 9] == digits[6]);
    assert(t[n - 8] == digits[7]);
    assert(t[n - 7] == digits[8]);
    assert(t[n - 6] == digits[9]);
    assert(t[n - 5] == digits[10]);
    assert(t[n - 4] == digits[11]);
    assert(t[n - 3] == digits[12]);
    assert(t[n - 2] == digits[13]);
    assert(t[n - 1] == digits[14]);
}

/// The folder, inside the output folder, that holds the ticket file.
pub fn tickets_dir_name() -> (r: &'static str)
    ensures
        r@ == "tickets"@,
{
    "tickets"
}

/// Whether a file extension is that of a ticket file (`qry`).
pub fn is_ticket_file_extension(ext: &str) -> (b: bool)
    ensures
        b == (ext@ == "qry"@),
{
    same_as_str(&chars_of(ext), "qry")
}

/// A save with no rows is refused with this message.
pub fn check_save_rows(rows: &Vec<CountedRow>) -> (r: Result<(), String>)
    ensures
        rows@.len() > 0 <==> r is Ok,
        r matches Err(m) ==> m@ == "No rows to save"@,
{
    if rows.len() == 0 {
        Err(string_of(&chars_of("No rows to save")))
    } else {
        Ok(())
    }
}

/// The message of a save of `count` rows: `Saved <count> rows`.
pub fn saved_message(count: usize) -> (r: String)
    ensures
        r@ == "Saved "@ + decimal(count as nat) + " rows"@,
{
    let mut out: Vec<char> = Vec::new();
    push_str(&mut out, "Saved ");
    push_decimal(&mut out, count as u64);
    push_str(&mut out, " rows");
    assert(out@ =~= "Saved "@ + decimal(count as nat) + " rows"@);
    string_of(&out)
}

/// The message of a save that failed: `Failed to save: <detail>`.
pub fn save_failed_message(detail: &str) -> (r: String)
    ensures
        r@ == "Failed to save: "@ + detail@,
{
    let mut out: Vec<char> = Vec::new();
    push_str(&mut out, "Failed to save: ");
    push_str(&mut out, detail);
    string_of(&out)
}

} // verus!
