//! Lemmas about splitting, joining and trimming text.
use vstd::prelude::*;

use crate::text::{decimal, digit, in_class, int_text, is_white_space, lines, split, split_state, strip_cr, trim, trim_end, trim_end_class, CharClass};
use crate::tickets::{join_lines, join_sep, lemma_join_sep_push};

verus! {

/// No `\n` in `l`, and `l` does not end with `\r`: `str::lines` gives such a
/// line back unchanged.
pub open spec fn line_ok(l: Seq<char>) -> bool {
    &&& forall|k: int| 0 <= k < l.len() ==> l[k] != '\n'
    &&& !(l.len() > 0 && l.last() == '\r')
}

/// Neither `\n` nor `\r` anywhere in `s`.
pub open spec fn no_line_break(s: Seq<char>) -> bool {
    forall|k: int| 0 <= k < s.len() ==> s[k] != '\n' && s[k] != '\r'
}

pub proof fn lemma_no_line_break_concat(a: Seq<char>, b: Seq<char>)
    requires
        no_line_break(a),
        no_line_break(b),
    ensures
        no_line_break(a + b),
{
    assert forall|k: int| 0 <= k < (a + b).len() implies (a + b)[k] != '\n' && (a + b)[k]
        != '\r' by {
        if k < a.len() {
            assert((a + b)[k] == a[k]);
        } else {
            assert((a + b)[k] == b[k - a.len()]);
        }
    }
}

pub proof fn lemma_no_line_break_line_ok(s: Seq<char>)
    requires
        no_line_break(s),
    ensures
        line_ok(s),
{
    if s.len() > 0 {
        assert(s.last() == s[s.len() - 1]);
    }
}

pub proof fn lemma_decimal_digits(n: nat)
    ensures
        decimal(n).len() > 0,
        forall|k: int|
            0 <= k < decimal(n).len() ==> '0' <= #[trigger] decimal(n)[k] && decimal(n)[k] <= '9',
    decreases n,
{
    if n >= 10 {
        lemma_decimal_digits(n / 10);
        assert forall|k: int| 0 <= k < decimal(n).len() implies '0' <= #[trigger] decimal(n)[k]
            && decimal(n)[k] <= '9' by {
            if k < decimal(n / 10).len() {
                assert(decimal(n)[k] == decimal(n / 10)[k]);
            } else {
                assert(decimal(n)[k] == digit(n % 10));
            }
        }
    }
}

pub proof fn lemma_decimal_no_line_break(n: nat)
    ensures
        no_line_break(decimal(n)),
        decimal(n).len() > 0,
        !is_white_space(decimal(n).last()),
{
    lemma_decimal_digits(n);
    assert(decimal(n).last() == decimal(n)[decimal(n).len() - 1]);
}

pub proof fn lemma_int_text_no_line_break(i: int)
    ensures
        no_line_break(int_text(i)),
        int_text(i).len() > 0,
        !is_white_space(int_text(i).last()),
{
    if i < 0 {
        lemma_decimal_no_line_break((-i) as nat);
        assert(no_line_break(seq!['-']));
        lemma_no_line_break_concat(seq!['-'], decimal((-i) as nat));
        assert((seq!['-'] + decimal((-i) as nat)).last() == decimal((-i) as nat).last());
    } else {
        lemma_decimal_no_line_break(i as nat);
    }
}

// ---------------------------------------------------------------------------
// Splitting and joining
// ---------------------------------------------------------------------------

/// Reading text without a separator only extends the open piece.
pub proof fn lemma_split_state_append(x: Seq<char>, y: Seq<char>, sep: char)
    requires
        forall|k: int| 0 <= k < y.len() ==> y[k] != sep,
    ensures
        split_state(x + y, sep) == (split_state(x, sep).0, split_state(x, sep).1 + y),
    decreases y.len(),
{
    if y.len() == 0 {
        assert(x + y =~= x);
        assert(split_state(x, sep).1 + y =~= split_state(x, sep).1);
    } else {
        let y1 = y.drop_last();
        lemma_split_state_append(x, y1, sep);
        assert((x + y).drop_last() =~= x + y1);
        assert((x + y).last() == y.last());
        assert(split_state(x, sep).1 + y1.push(y.last()) =~= split_state(x, sep).1 + y);
        assert(y1.push(y.last()) =~= y);
    }
}

pub proof fn lemma_split_state_join_lines(ls: Seq<Seq<char>>)
    requires
        forall|i: int, k: int| 0 <= i < ls.len() && 0 <= k < ls[i].len() ==> ls[i][k] != '\n',
    ensures
        split_state(join_lines(ls), '\n') == (ls, Seq::<char>::empty()),
    decreases ls.len(),
{
    if ls.len() > 0 {
        let l0 = ls.drop_last();
        let l = ls.last();
        lemma_split_state_join_lines(l0);
        assert forall|k: int| 0 <= k < l.len() implies l[k] != '\n' by {
            assert(l == ls[ls.len() - 1]);
        }
        lemma_split_state_append(join_lines(l0), l, '\n');
        let x = join_lines(l0) + l;
        assert(join_lines(ls) =~= x.push('\n'));
        assert(x.push('\n').drop_last() =~= x);
        assert(Seq::<char>::empty() + l =~= l);
        assert(l0.push(l) =~= ls);
    }
}

/// `str::lines` gives back the lines that were joined, when none holds a
/// line break.
pub proof fn lemma_lines_join_lines(ls: Seq<Seq<char>>)
    requires
        forall|i: int| 0 <= i < ls.len() ==> line_ok(#[trigger] ls[i]),
    ensures
        lines(join_lines(ls)) == ls,
{
    assert forall|i: int, k: int| 0 <= i < ls.len() && 0 <= k < ls[i].len() implies ls[i][k]
        != '\n' by {
        assert(line_ok(ls[i]));
    }
    lemma_split_state_join_lines(ls);
    let m = ls.map_values(|l: Seq<char>| strip_cr(l));
    assert forall|i: int| 0 <= i < ls.len() implies m[i] == ls[i] by {
        assert(line_ok(ls[i]));
    }
    assert(m =~= ls);
    assert(lines(join_lines(ls)) =~= m + Seq::empty());
}

pub proof fn lemma_join_lines_append(a: Seq<Seq<char>>, b: Seq<Seq<char>>)
    ensures
        join_lines(a + b) == join_lines(a) + join_lines(b),
    decreases b.len(),
{
    if b.len() == 0 {
        assert(a + b =~= a);
        assert(join_lines(a) + join_lines(b) =~= join_lines(a));
    } else {
        lemma_join_lines_append(a, b.drop_last());
        assert((a + b).drop_last() =~= a + b.drop_last());
        assert((a + b).last() == b.last());
        assert(join_lines(a + b) =~= join_lines(a) + join_lines(b));
    }
}

pub proof fn lemma_join_sep_newline(ls: Seq<Seq<char>>)
    requires
        ls.len() > 0,
    ensures
        join_sep(ls).push('\n') == join_lines(ls),
    decreases ls.len(),
{
    if ls.len() == 1 {
        assert(ls.drop_last() =~= Seq::<Seq<char>>::empty());
        assert(join_lines(ls.drop_last()) =~= Seq::<char>::empty());
        assert(ls.last() == ls[0]);
        assert(join_lines(ls) =~= ls[0].push('\n'));
    } else {
        lemma_join_sep_newline(ls.drop_last());
        assert(join_sep(ls).push('\n') =~= join_sep(ls.drop_last()).push('\n') + ls.last().push(
            '\n',
        ));
    }
}

/// The pieces of a split hold no separator.
pub proof fn lemma_split_pieces(t: Seq<char>, sep: char)
    ensures
        forall|i: int, k: int|
            0 <= i < split_state(t, sep).0.len() && 0 <= k < split_state(t, sep).0[i].len()
                ==> split_state(t, sep).0[i][k] != sep,
        forall|k: int| 0 <= k < split_state(t, sep).1.len() ==> split_state(t, sep).1[k] != sep,
    decreases t.len(),
{
    if t.len() > 0 {
        let t0 = t.drop_last();
        lemma_split_pieces(t0, sep);
        let (d, o) = split_state(t0, sep);
        if t.last() == sep {
            assert(split_state(t, sep) == (d.push(o), Seq::<char>::empty()));
            assert forall|i: int, k: int|
                0 <= i < d.push(o).len() && 0 <= k < d.push(o)[i].len() implies d.push(o)[i][k]
                != sep by {
                if i < d.len() {
                    assert(d.push(o)[i] == d[i]);
                } else {
                    assert(d.push(o)[i] == o);
                }
            }
        } else {
            assert(split_state(t, sep) == (d, o.push(t.last())));
            assert forall|k: int| 0 <= k < o.push(t.last()).len() implies o.push(t.last())[k]
                != sep by {
                if k < o.len() {
                    assert(o.push(t.last())[k] == o[k]);
                }
            }
        }
    }
}

pub proof fn lemma_split_no_sep(t: Seq<char>, sep: char)
    ensures
        forall|i: int, k: int|
            0 <= i < split(t, sep).len() && 0 <= k < split(t, sep)[i].len() ==> split(
                t,
                sep,
            )[i][k] != sep,
        split(t, sep).len() > 0,
{
    lemma_split_pieces(t, sep);
    let (d, o) = split_state(t, sep);
    assert forall|i: int, k: int|
        0 <= i < split(t, sep).len() && 0 <= k < split(t, sep)[i].len() implies split(
        t,
        sep,
    )[i][k] != sep by {
        if i < d.len() {
            assert(split(t, sep)[i] == d[i]);
        } else {
            assert(split(t, sep)[i] == o);
        }
    }
}

/// Joining the pieces of a split with `\n` gives the text back.
pub proof fn lemma_join_sep_split(t: Seq<char>)
    ensures
        join_sep(split(t, '\n')) == t,
    decreases t.len(),
{
    if t.len() == 0 {
        assert(split(t, '\n') =~= seq![Seq::<char>::empty()]);
        assert(t =~= Seq::<char>::empty());
    } else {
        let t0 = t.drop_last();
        let x = t.last();
        lemma_join_sep_split(t0);
        let (d, o) = split_state(t0, '\n');
        assert(t0.push(x) =~= t);
        if x == '\n' {
            lemma_join_sep_push(d.push(o), Seq::empty());
            assert(split(t, '\n') =~= d.push(o).push(Seq::empty()));
            assert(join_sep(d.push(o)).push('\n') + Seq::<char>::empty() =~= t);
        } else {
            assert(split(t, '\n') =~= d.push(o.push(x)));
            if d.len() == 0 {
                assert(d.push(o.push(x)) =~= seq![o.push(x)]);
                assert(d.push(o) =~= seq![o]);
            } else {
                lemma_join_sep_push(d, o.push(x));
                lemma_join_sep_push(d, o);
                assert(join_sep(d).push('\n') + o.push(x) =~= (join_sep(d).push('\n') + o).push(
                    x,
                ));
            }
        }
    }
}

/// Splitting pieces joined with `\n` gives the pieces back, when none holds
/// a `\n`.
pub proof fn lemma_split_join_sep(ps: Seq<Seq<char>>)
    requires
        ps.len() > 0,
        forall|i: int, k: int| 0 <= i < ps.len() && 0 <= k < ps[i].len() ==> ps[i][k] != '\n',
    ensures
        split(join_sep(ps), '\n') == ps,
    decreases ps.len(),
{
    if ps.len() == 1 {
        assert forall|k: int| 0 <= k < ps[0].len() implies ps[0][k] != '\n' by {}
        lemma_split_state_append(Seq::empty(), ps[0], '\n');
        assert(Seq::<char>::empty() + ps[0] =~= ps[0]);
        assert(split_state(Seq::<char>::empty(), '\n') == (
            Seq::<Seq<char>>::empty(),
            Seq::<char>::empty(),
        ));
        assert(split(join_sep(ps), '\n') =~= ps);
    } else {
        let p0 = ps.drop_last();
        let l = ps.last();
        lemma_split_join_sep(p0);
        let j0 = join_sep(p0);
        assert(j0.push('\n').drop_last() =~= j0);
        assert(split_state(j0.push('\n'), '\n') == (p0, Seq::<char>::empty()));
        assert forall|k: int| 0 <= k < l.len() implies l[k] != '\n' by {
            assert(l == ps[ps.len() - 1]);
        }
        lemma_split_state_append(j0.push('\n'), l, '\n');
        assert(Seq::<char>::empty() + l =~= l);
        assert(join_sep(ps) == j0.push('\n') + l);
        assert(p0.push(l) =~= ps);
    }
}

// ---------------------------------------------------------------------------
// Trimming
// ---------------------------------------------------------------------------

pub proof fn lemma_trim_end_prefix(s: Seq<char>, k: CharClass)
    requires
        s.len() > 0,
        !in_class(k, s[0]),
    ensures
        trim_end_class(s, k).len() > 0,
        trim_end_class(s, k)[0] == s[0],
    decreases s.len(),
{
    if in_class(k, s.last()) {
        assert(s.len() > 1) by {
            if s.len() == 1 {
                assert(s.last() == s[0]);
            }
        }
        lemma_trim_end_prefix(s.drop_last(), k);
    }
}

/// Trimming keeps a first character that is not white space.
pub proof fn lemma_trim_first(s: Seq<char>)
    requires
        s.len() > 0,
        !is_white_space(s[0]),
    ensures
        trim(s).len() > 0,
        trim(s)[0] == s[0],
{
    lemma_trim_end_prefix(s, CharClass::WhiteSpace);
}

/// Text that neither starts nor ends with white space is its own trim.
pub proof fn lemma_trim_fixed(s: Seq<char>)
    requires
        s.len() > 0,
        !is_white_space(s[0]),
        !is_white_space(s.last()),
    ensures
        trim(s) == s,
        trim_end(s) == s,
{
}

/// Trimming the end of text followed by `\n` removes the `\n`.
pub proof fn lemma_trim_end_newline(s: Seq<char>)
    requires
        s.len() > 0,
        !is_white_space(s.last()),
    ensures
        trim_end(s.push('\n')) == s,
{
    assert(s.push('\n').drop_last() =~= s);
    assert(is_white_space('\n'));
    assert(in_class(CharClass::WhiteSpace, s.push('\n').last()));
    assert(trim_end_class(s.push('\n'), CharClass::WhiteSpace) == trim_end_class(
        s,
        CharClass::WhiteSpace,
    ));
    assert(!in_class(CharClass::WhiteSpace, s.last()));
    assert(trim_end_class(s, CharClass::WhiteSpace) == s);
}

} // verus!
