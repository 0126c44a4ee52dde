//! The SQL text the service sends: quoting of user-supplied values and the
//! queries built from them.
use vstd::prelude::*;

use crate::text::{chars_of, push_chars, push_str, string_of};

verus! {

// ---------------------------------------------------------------------------
// Quoting
// ---------------------------------------------------------------------------

/// What quoting writes for one character: a quote twice, anything else once.
pub open spec fn escaped_char(c: char) -> Seq<char> {
    if c == '\'' {
        seq!['\'', '\'']
    } else {
        seq![c]
    }
}

/// `s` with every single quote doubled (what `s.replace('\'', "''")`
/// returns), so that it can stand between quotes in SQL text.
pub open spec fn sql_escape(s: Seq<char>) -> Seq<char>
    decreases s.len(),
{
    if s.len() == 0 {
        Seq::empty()
    } else {
        escaped_char(s[0]) + sql_escape(s.drop_first())
    }
}

/// Reads a SQL string literal whose opening quote is already read: `''`
/// stands for one quote and a lone quote ends the literal. Gives the value
/// and the text after the closing quote.
pub open spec fn read_sql_literal(t: Seq<char>) -> Option<(Seq<char>, Seq<char>)>
    decreases t.len(),
{
    if t.len() == 0 {
        None
    } else if t[0] == '\'' {
        if t.len() > 1 && t[1] == '\'' {
            match read_sql_literal(t.skip(2)) {
                Some((v, rest)) => Some((seq!['\''] + v, rest)),
                None => None,
            }
        } else {
            Some((Seq::empty(), t.skip(1)))
        }
    } else {
        match read_sql_literal(t.skip(1)) {
            Some((v, rest)) => Some((seq![t[0]] + v, rest)),
            None => None,
        }
    }
}

proof fn lemma_sql_escape_append(a: Seq<char>, b: Seq<char>)
    ensures
        sql_escape(a + b) == sql_escape(a) + sql_escape(b),
    decreases a.len(),
{
    if a.len() == 0 {
        assert(a + b =~= b);
        assert(sql_escape(a) + sql_escape(b) =~= sql_escape(b));
    } else {
        lemma_sql_escape_append(a.drop_first(), b);
        assert((a + b).drop_first() =~= a.drop_first() + b);
        assert((a + b)[0] == a[0]);
        assert(sql_escape(a + b) =~= sql_escape(a) + sql_escape(b));
    }
}

proof fn lemma_sql_escape_single(c: char)
    ensures
        sql_escape(seq![c]) == escaped_char(c),
{
    assert(seq![c].drop_first() =~= Seq::<char>::empty());
    assert(sql_escape(seq![c].drop_first()) =~= Seq::<char>::empty());
    assert(seq![c][0] == c);
    assert(escaped_char(c) + Seq::<char>::empty() =~= escaped_char(c));
}

/// A quoted value reads back as itself: after the opening quote, the
/// escaped value and a closing quote, a SQL reader finds exactly the value,
/// and the text after it is left as it was (when it does not itself start
/// with a quote, which would make the closing quote an escaped one).
pub proof fn law_sql_literal_reads_back(s: Seq<char>, rest: Seq<char>)
    requires
        !(rest.len() > 0 && rest[0] == '\''),
    ensures
        read_sql_literal(sql_escape(s) + seq!['\''] + rest) == Some((s, rest)),
    decreases s.len(),
{
    let t = sql_escape(s) + seq!['\''] + rest;
    if s.len() == 0 {
        assert(t =~= seq!['\''] + rest);
        assert(t.skip(1) =~= rest);
    } else {
        let s1 = s.drop_first();
        law_sql_literal_reads_back(s1, rest);
        let t1 = sql_escape(s1) + seq!['\''] + rest;
        if s[0] == '\'' {
            assert(t =~= seq!['\'', '\''] + t1);
            assert(t.skip(2) =~= t1);
            assert(seq!['\''] + s1 =~= s);
        } else {
            assert(t =~= seq![s[0]] + t1);
            assert(t.skip(1) =~= t1);
            assert(seq![s[0]] + s1 =~= s);
        }
    }
}

/// `s` with every single quote doubled.
pub fn escape_sql(s: &str) -> (r: String)
    ensures
        r@ == sql_escape(s@),
{
    let v = chars_of(s);
    let mut out: Vec<char> = Vec::new();
    let mut i: usize = 0;
    while i < v.len()
        invariant
            i <= v.len(),
            v@ == s@,
            out@ == sql_escape(v@.take(i as int)),
        decreases v.len() - i,
    {
        let c = v[i];
        if c == '\'' {
            out.push('\'');
            out.push('\'');
        } else {
            out.push(c);
        }
        proof {
            lemma_sql_escape_append(v@.take(i as int), seq![c]);
            lemma_sql_escape_single(c);
            assert(v@.take(i as int) + seq![c] =~= v@.take(i + 1));
        }
        assert(out@ =~= sql_escape(v@.take(i + 1)));
        i = i + 1;
    }
    assert(v@.take(v.len() as int) =~= v@);
    string_of(&out)
}

fn push_escaped(out: &mut Vec<char>, s: &str)
    ensures
        final(out)@ == old(out)@ + sql_escape(s@),
{
    let e = escape_sql(s);
    push_str(out, e.as_str());
}

/// `'<value>'` with the quotes of the value doubled.
pub open spec fn quoted(s: Seq<char>) -> Seq<char> {
    "'"@ + sql_escape(s) + "'"@
}

// ---------------------------------------------------------------------------
// Queries
// ---------------------------------------------------------------------------

/// The departments offered for a stock take: all but `Non Sales` and `EPay`.
pub fn departments_query() -> (r: String)
    ensures
        r@ == "SELECT ID, Description FROM Departments WHERE Description NOT IN ('Non Sales', 'EPay')"@,
{
    let v = chars_of(
        "SELECT ID, Description FROM Departments WHERE Description NOT IN ('Non Sales', 'EPay')",
    );
    string_of(&v)
}

/// The active suppliers (customers of type `R`).
pub fn suppliers_query() -> (r: String)
    ensures
        r@ == "SELECT Code, LastName, FirstName FROM Customers WHERE CustType = 'R' AND InActive = '0'"@,
{
    let v = chars_of(
        "SELECT Code, LastName, FirstName FROM Customers WHERE CustType = 'R' AND InActive = '0'",
    );
    string_of(&v)
}

pub open spec fn refresh_upc_sql(upc: Seq<char>) -> Seq<char> {
    "SELECT TOP 1 CAST((m.QtyOnHand + m.Quantity) AS FLOAT) AS StockOnHand FROM [ItemMovement] m WHERE m.UPC = '"@
        + sql_escape(upc) + "' ORDER BY m.ID DESC"@
}

/// The latest stock on hand of one UPC.
pub fn refresh_upc_query(upc: &str) -> (r: String)
    ensures
        r@ == refresh_upc_sql(upc@),
{
    let mut out: Vec<char> = Vec::new();
    push_str(
        &mut out,
        "SELECT TOP 1 CAST((m.QtyOnHand + m.Quantity) AS FLOAT) AS StockOnHand FROM [ItemMovement] m WHERE m.UPC = '",
    );
    push_escaped(&mut out, upc);
    push_str(&mut out, "' ORDER BY m.ID DESC");
    assert(out@ =~= refresh_upc_sql(upc@));
    string_of(&out)
}

pub open spec fn department_supplier_codes_sql(department: Seq<char>) -> Seq<char> {
    "SELECT DISTINCT i.Supplier FROM Items i WHERE i.InActive = '0' AND i.Department = '"@
        + sql_escape(department)
        + "' AND i.Supplier IS NOT NULL AND i.Supplier <> '' ORDER BY i.Supplier"@
}

/// The distinct supplier codes of the active items of one department.
pub fn department_supplier_codes_query(department: &str) -> (r: String)
    ensures
        r@ == department_supplier_codes_sql(department@),
{
    let mut out: Vec<char> = Vec::new();
    push_str(
        &mut out,
        "SELECT DISTINCT i.Supplier FROM Items i WHERE i.InActive = '0' AND i.Department = '",
    );
    push_escaped(&mut out, department);
    push_str(&mut out, "' AND i.Supplier IS NOT NULL AND i.Supplier <> '' ORDER BY i.Supplier");
    assert(out@ =~= department_supplier_codes_sql(department@));
    string_of(&out)
}

/// The codes, each quoted, separated by commas.
pub open spec fn quoted_list(codes: Seq<Seq<char>>) -> Seq<char>
    decreases codes.len(),
{
    if codes.len() == 0 {
        Seq::empty()
    } else if codes.len() == 1 {
        quoted(codes[0])
    } else {
        quoted_list(codes.drop_last()) + ","@ + quoted(codes.last())
    }
}

pub open spec fn supplier_details_sql(codes: Seq<Seq<char>>) -> Seq<char> {
    "SELECT Code, LastName, FirstName FROM Customers WHERE CustType = 'R' AND InActive = '0' AND Code IN ("@
        + quoted_list(codes) + ") ORDER BY Code"@
}

/// The names of the active suppliers among `codes`, ordered by code.
pub fn supplier_details_query(codes: &Vec<String>) -> (r: String)
    ensures
        r@ == supplier_details_sql(codes@.map_values(|c: String| c@)),
{
    let ghost cs = codes@.map_values(|c: String| c@);
    let mut list: Vec<char> = Vec::new();
    let mut i: usize = 0;
    while i < codes.len()
        invariant
            i <= codes.len(),
            cs == codes@.map_values(|c: String| c@),
            list@ == quoted_list(cs.take(i as int)),
        decreases codes.len() - i,
    {
        let ghost before = list@;
        if i > 0 {
            push_str(&mut list, ",");
        }
        push_str(&mut list, "'");
        push_escaped(&mut list, codes[i].as_str());
        push_str(&mut list, "'");
        proof {
            let t = cs.take(i + 1);
            assert(t.drop_last() =~= cs.take(i as int));
            assert(t.last() == codes@[i as int]@);
            if i == 0 {
                assert(t =~= seq![codes@[0]@]);
            }
        }
        assert(list@ =~= quoted_list(cs.take(i + 1)));
        i = i + 1;
    }
    assert(cs.take(codes.len() as int) =~= cs);
    let mut out: Vec<char> = Vec::new();
    push_str(
        &mut out,
        "SELECT Code, LastName, FirstName FROM Customers WHERE CustType = 'R' AND InActive = '0' AND Code IN (",
    );
    push_chars(&mut out, &list);
    push_str(&mut out, ") ORDER BY Code");
    assert(out@ =~= supplier_details_sql(cs));
    string_of(&out)
}

/// Whether a filter value selects everything: `ALL` or nothing at all.
pub open spec fn is_all_filter(v: Seq<char>) -> bool {
    v == "ALL"@ || v.len() == 0
}

pub fn is_all(v: &str) -> (b: bool)
    ensures
        b == is_all_filter(v@),
{
    let c = chars_of(v);
    let all = chars_of("ALL");
    if c.len() == 0 {
        return true;
    }
    if c.len() != all.len() {
        return false;
    }
    let mut i: usize = 0;
    while i < c.len()
        invariant
            i <= c.len(),
            c.len() == all.len(),
            c@ == v@,
            all@ == "ALL"@,
            forall|k: int| 0 <= k < i ==> c@[k] == all@[k],
        decreases c.len() - i,
    {
        if c[i] != all[i] {
            return false;
        }
        i = i + 1;
    }
    assert(c@ =~= all@);
    true
}

/// The condition a filter adds to the item search: nothing when it selects
/// everything, else ` AND i.<column> = '<value>'`.
pub open spec fn filter_clause(column: Seq<char>, v: Seq<char>) -> Seq<char> {
    if is_all_filter(v) {
        Seq::empty()
    } else {
        " AND i."@ + column + " = "@ + quoted(v)
    }
}

fn push_filter_clause(out: &mut Vec<char>, column: &str, v: &str)
    ensures
        final(out)@ == old(out)@ + filter_clause(column@, v@),
{
    if !is_all(v) {
        push_str(out, " AND i.");
        push_str(out, column);
        push_str(out, " = ");
        push_str(out, "'");
        push_escaped(out, v);
        push_str(out, "'");
        assert(final(out)@ =~= old(out)@ + filter_clause(column@, v@));
    } else {
        assert(final(out)@ =~= old(out)@ + filter_clause(column@, v@));
    }
}

pub open spec fn search_items_sql(
    department: Seq<char>,
    supplier: Seq<char>,
    sub_department: Seq<char>,
) -> Seq<char> {
    "SELECT\n                i.UPC,\n                i.[Description],\n                i.[Department],\n                i.[Supplier],\n                (\n                    SELECT TOP 1 CAST((m.QtyOnHand + m.Quantity) AS FLOAT)\n                    FROM [ItemMovement] m\n                    WHERE m.UPC = i.UPC\n                    ORDER BY m.ID Desc\n                ) AS StockOnHand,\n                ISNULL(i.ParentUPC, '') AS ParentUPC,\n                ISNULL(i.SellingQty, 0) AS SellingQty\n            FROM Items i\n            WHERE i.InActive = '0'\n                "@
        + filter_clause("Department"@, department) + "\n                "@ + filter_clause(
        "Supplier"@,
        supplier,
    ) + "\n                "@ + filter_clause("SubDepartment"@, sub_department)
        + "\n            ORDER BY i.[Description]"@
}

/// The active items, with their latest stock on hand, of the department,
/// supplier and sub-department asked for (`ALL` or empty: any), ordered by
/// description.
pub fn search_items_query(department: &str, supplier: &str, sub_department: &str) -> (r: String)
    ensures
        r@ == search_items_sql(department@, supplier@, sub_department@),
{
    let mut out: Vec<char> = Vec::new();
    push_str(
        &mut out,
        "SELECT\n                i.UPC,\n                i.[Description],\n                i.[Department],\n                i.[Supplier],\n                (\n                    SELECT TOP 1 CAST((m.QtyOnHand + m.Quantity) AS FLOAT)\n                    FROM [ItemMovement] m\n                    WHERE m.UPC = i.UPC\n                    ORDER BY m.ID Desc\n                ) AS StockOnHand,\n                ISNULL(i.ParentUPC, '') AS ParentUPC,\n                ISNULL(i.SellingQty, 0) AS SellingQty\n            FROM Items i\n            WHERE i.InActive = '0'\n                ",
    );
    push_filter_clause(&mut out, "Department", department);
    push_str(&mut out, "\n                ");
    push_filter_clause(&mut out, "Supplier", supplier);
    push_str(&mut out, "\n                ");
    push_filter_clause(&mut out, "SubDepartment", sub_department);
    push_str(&mut out, "\n            ORDER BY i.[Description]");
    assert(out@ =~= search_items_sql(department@, supplier@, sub_department@));
    string_of(&out)
}

/// The text of the item search around its three filter conditions.
pub open spec fn search_sql_with(fd: Seq<char>, fs: Seq<char>, fsub: Seq<char>) -> Seq<char> {
    "SELECT\n                i.UPC,\n                i.[Description],\n                i.[Department],\n                i.[Supplier],\n                (\n                    SELECT TOP 1 CAST((m.QtyOnHand + m.Quantity) AS FLOAT)\n                    FROM [ItemMovement] m\n                    WHERE m.UPC = i.UPC\n                    ORDER BY m.ID Desc\n                ) AS StockOnHand,\n                ISNULL(i.ParentUPC, '') AS ParentUPC,\n                ISNULL(i.SellingQty, 0) AS SellingQty\n            FROM Items i\n            WHERE i.InActive = '0'\n                "@
        + fd + "\n                "@ + fs + "\n                "@ + fsub
        + "\n            ORDER BY i.[Description]"@
}

/// Seven pieces joined are the first two followed by the other five.
proof fn lemma_regroup(
    a: Seq<char>,
    x: Seq<char>,
    b: Seq<char>,
    y: Seq<char>,
    c: Seq<char>,
    z: Seq<char>,
    d: Seq<char>,
)
    ensures
        a + x + b + y + c + z + d == a + x + (b + y + c + z + d),
        a + Seq::<char>::empty() == a,
{
    assert(a + x + b + y + c + z + d =~= a + x + (b + y + c + z + d));
    assert(a + Seq::<char>::empty() =~= a);
}

proof fn lemma_concat3(h: Seq<char>, c: Seq<char>, q: Seq<char>, t: Seq<char>)
    ensures
        h + (c + q) + t == h + c + q + t,
{
    assert(h + (c + q) + t =~= h + c + q + t);
}

proof fn lemma_clause_text(column: Seq<char>, v: Seq<char>, c: Seq<char>)
    requires
        !is_all_filter(v),
        c == " AND i."@ + column + " = "@,
    ensures
        filter_clause(column, v) == c + quoted(v),
{
    assert(filter_clause(column, v) =~= c + quoted(v));
}

/// The search's filters only narrow it: an empty filter is the same search
/// as `ALL`, and a filter that names a value is the search with `ALL` there
/// plus one condition, `AND i.<column> = '<value>'`, in its `WHERE` clause.
pub proof fn law_search_filters_narrow(d: Seq<char>, s: Seq<char>, sub: Seq<char>)
    ensures
        is_all_filter(d) ==> search_items_sql(d, s, sub) == search_items_sql("ALL"@, s, sub),
        is_all_filter(s) ==> search_items_sql(d, s, sub) == search_items_sql(d, "ALL"@, sub),
        is_all_filter(sub) ==> search_items_sql(d, s, sub) == search_items_sql(d, s, "ALL"@),
        !is_all_filter(d) ==> exists|head: Seq<char>, tail: Seq<char>|
            search_items_sql("ALL"@, s, sub) == head + tail && search_items_sql(d, s, sub) == head
                + " AND i.Department = "@ + quoted(d) + tail,
        !is_all_filter(s) ==> exists|head: Seq<char>, tail: Seq<char>|
            search_items_sql(d, "ALL"@, sub) == head + tail && search_items_sql(d, s, sub) == head
                + " AND i.Supplier = "@ + quoted(s) + tail,
        !is_all_filter(sub) ==> exists|head: Seq<char>, tail: Seq<char>|
            search_items_sql(d, s, "ALL"@) == head + tail && search_items_sql(d, s, sub) == head
                + " AND i.SubDepartment = "@ + quoted(sub) + tail,
{
    let fd = filter_clause("Department"@, d);
    let fs = filter_clause("Supplier"@, s);
    let fsub = filter_clause("SubDepartment"@, sub);
    let e = Seq::<char>::empty();
    let st = "SELECT\n                i.UPC,\n                i.[Description],\n                i.[Department],\n                i.[Supplier],\n                (\n                    SELECT TOP 1 CAST((m.QtyOnHand + m.Quantity) AS FLOAT)\n                    FROM [ItemMovement] m\n                    WHERE m.UPC = i.UPC\n                    ORDER BY m.ID Desc\n                ) AS StockOnHand,\n                ISNULL(i.ParentUPC, '') AS ParentUPC,\n                ISNULL(i.SellingQty, 0) AS SellingQty\n            FROM Items i\n            WHERE i.InActive = '0'\n                "@;
    let g = "\n                "@;
    let en = "\n            ORDER BY i.[Description]"@;
    assert(is_all_filter("ALL"@));
    assert(search_items_sql(d, s, sub) == search_sql_with(fd, fs, fsub));
    assert(search_items_sql("ALL"@, s, sub) == search_sql_with(e, fs, fsub));
    assert(search_items_sql(d, "ALL"@, sub) == search_sql_with(fd, e, fsub));
    assert(search_items_sql(d, s, "ALL"@) == search_sql_with(fd, fs, e));
    if !is_all_filter(d) {
        reveal_strlit(" AND i.");
        reveal_strlit("Department");
        reveal_strlit(" = ");
        reveal_strlit(" AND i.Department = ");
        let c = " AND i.Department = "@;
        assert(c =~= " AND i."@ + "Department"@ + " = "@);
        lemma_clause_text("Department"@, d, c);
        let tail = g + fs + g + fsub + en;
        lemma_regroup(st, fd, g, fs, g, fsub, en);
        lemma_regroup(st, e, g, fs, g, fsub, en);
        lemma_concat3(st, c, quoted(d), tail);
        assert(search_items_sql("ALL"@, s, sub) == st + tail);
        assert(search_items_sql(d, s, sub) == st + c + quoted(d) + tail);
    }
    if !is_all_filter(s) {
        reveal_strlit(" AND i.");
        reveal_strlit("Supplier");
        reveal_strlit(" = ");
        reveal_strlit(" AND i.Supplier = ");
        let c = " AND i.Supplier = "@;
        assert(c =~= " AND i."@ + "Supplier"@ + " = "@);
        lemma_clause_text("Supplier"@, s, c);
        let head = st + fd + g;
        let tail = g + fsub + en;
        assert(search_sql_with(fd, fs, fsub) == head + fs + tail) by {
            assert(search_sql_with(fd, fs, fsub) =~= head + fs + tail);
        }
        assert(search_sql_with(fd, e, fsub) == head + tail) by {
            assert(search_sql_with(fd, e, fsub) =~= head + tail);
        }
        lemma_concat3(head, c, quoted(s), tail);
    }
    if !is_all_filter(sub) {
        reveal_strlit(" AND i.");
        reveal_strlit("SubDepartment");
        reveal_strlit(" = ");
        reveal_strlit(" AND i.SubDepartment = ");
        let c = " AND i.SubDepartment = "@;
        assert(c =~= " AND i."@ + "SubDepartment"@ + " = "@);
        lemma_clause_text("SubDepartment"@, sub, c);
        let head = st + fd + g + fs + g;
        assert(search_sql_with(fd, fs, e) == head + en) by {
            assert(search_sql_with(fd, fs, e) =~= head + en);
        }
        lemma_concat3(head, c, quoted(sub), en);
    }
}

pub open spec fn barcode_lookup_sql(barcode: Seq<char>) -> Seq<char> {
    "SELECT UPC FROM ItemBarcodes WHERE barcode = "@ + quoted(barcode)
}

/// The UPCs a scanned barcode stands for.
pub fn barcode_lookup_query(barcode: &str) -> (r: String)
    ensures
        r@ == barcode_lookup_sql(barcode@),
{
    let mut out: Vec<char> = Vec::new();
    push_str(&mut out, "SELECT UPC FROM ItemBarcodes WHERE barcode = ");
    push_str(&mut out, "'");
    push_escaped(&mut out, barcode);
    push_str(&mut out, "'");
    assert(out@ =~= barcode_lookup_sql(barcode@));
    string_of(&out)
}

pub open spec fn sub_departments_sql(department: Seq<char>) -> Seq<char> {
    "SELECT [ID], [Description], [DepID] FROM SubDepartments WHERE DepID = "@ + quoted(
        department,
    )
}

/// The sub-departments of one department.
pub fn sub_departments_query(department: &str) -> (r: String)
    ensures
        r@ == sub_departments_sql(department@),
{
    let mut out: Vec<char> = Vec::new();
    push_str(&mut out, "SELECT [ID], [Description], [DepID] FROM SubDepartments WHERE DepID = ");
    push_str(&mut out, "'");
    push_escaped(&mut out, department);
    push_str(&mut out, "'");
    assert(out@ =~= sub_departments_sql(department@));
    string_of(&out)
}

} // verus!
