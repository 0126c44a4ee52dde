//! Departments and suppliers: reading them from query rows, the fixed lists
//! used when the database gives none, and the steps of the supplier lookup
//! for one department.
use vstd::prelude::*;

use crate::sql::{department_supplier_codes_query, department_supplier_codes_sql, is_all, is_all_filter, supplier_details_query, supplier_details_sql};
use crate::text::{chars_of, int_text, push_int, push_str, string_of, trim, trim_chars};

verus! {

// ---------------------------------------------------------------------------
// Cells of a result row
// ---------------------------------------------------------------------------

/// One cell of a result row, as far as the service reads it: a string, one
/// of the integer widths SQL Server uses for code columns, or anything else
/// (NULL included).
pub enum Cell {
    Text(String),
    SmallInt(i16),
    Int(i32),
    BigInt(i64),
    TinyInt(u8),
    Other,
}

/// The text of a cell: a string trimmed, an integer in decimal, anything
/// else empty.
pub open spec fn cell_text(c: Cell) -> Seq<char> {
    match c {
        Cell::Text(s) => trim(s@),
        Cell::SmallInt(v) => int_text(v as int),
        Cell::Int(v) => int_text(v as int),
        Cell::BigInt(v) => int_text(v as int),
        Cell::TinyInt(v) => int_text(v as int),
        Cell::Other => Seq::empty(),
    }
}

/// Cell `i` of a row; a row without it reads as [`Cell::Other`].
pub open spec fn cell_at(row: Seq<Cell>, i: int) -> Cell {
    if 0 <= i < row.len() {
        row[i]
    } else {
        Cell::Other
    }
}

pub open spec fn rows_view(rows: Seq<Vec<Cell>>) -> Seq<Seq<Cell>> {
    rows.map_values(|r: Vec<Cell>| r@)
}

pub open spec fn strings_view(v: Seq<String>) -> Seq<Seq<char>> {
    v.map_values(|s: String| s@)
}

/// The text of cell `idx` of `row` (see [`cell_text`]); empty when the row
/// has no such cell.
pub fn cell_to_string(row: &Vec<Cell>, idx: usize) -> (r: String)
    ensures
        r@ == cell_text(cell_at(row@, idx as int)),
{
    if idx >= row.len() {
        return String::new();
    }
    match &row[idx] {
        Cell::Text(s) => {
            let c = chars_of(s.as_str());
            let t = trim_chars(&c);
            string_of(&t)
        },
        Cell::SmallInt(v) => int_string(*v as i64),
        Cell::Int(v) => int_string(*v as i64),
        Cell::BigInt(v) => int_string(*v),
        Cell::TinyInt(v) => int_string(*v as i64),
        Cell::Other => String::new(),
    }
}

fn int_string(v: i64) -> (r: String)
    ensures
        r@ == int_text(v as int),
{
    let mut out: Vec<char> = Vec::new();
    push_int(&mut out, v);
    assert(out@ =~= int_text(v as int));
    string_of(&out)
}

// ---------------------------------------------------------------------------
// Departments
// ---------------------------------------------------------------------------

/// A department option: the id stored in the database and the label shown.
pub struct Department {
    pub department: String,
    pub label: String,
}

impl View for Department {
    type V = (Seq<char>, Seq<char>);

    open spec fn view(&self) -> (Seq<char>, Seq<char>) {
        (self.department@, self.label@)
    }
}

pub open spec fn department_views(v: Seq<Department>) -> Seq<(Seq<char>, Seq<char>)> {
    v.map_values(|d: Department| d@)
}

/// The option for a department row `(ID, Description)`: none when the id
/// is empty, labelled `Description (ID)`, or just the id when there is no
/// description.
pub open spec fn department_option(row: Seq<Cell>) -> Option<(Seq<char>, Seq<char>)> {
    let id = cell_text(cell_at(row, 0));
    let description = cell_text(cell_at(row, 1));
    if id.len() == 0 {
        None
    } else if description.len() == 0 {
        Some((id, id))
    } else {
        Some((id, description + " ("@ + id + ")"@))
    }
}

/// The options of the rows that have one, in order.
pub open spec fn department_options(rows: Seq<Seq<Cell>>) -> Seq<(Seq<char>, Seq<char>)>
    decreases rows.len(),
{
    if rows.len() == 0 {
        Seq::empty()
    } else {
        match department_option(rows.last()) {
            Some(d) => department_options(rows.drop_last()).push(d),
            None => department_options(rows.drop_last()),
        }
    }
}

/// The departments of the rows of [`crate::sql::departments_query`].
pub fn departments_from_rows(rows: &Vec<Vec<Cell>>) -> (r: Vec<Department>)
    ensures
        department_views(r@) == department_options(rows_view(rows@)),
{
    let ghost rv = rows_view(rows@);
    let mut r: Vec<Department> = Vec::new();
    let mut i: usize = 0;
    while i < rows.len()
        invariant
            i <= rows.len(),
            rv == rows_view(rows@),
            department_views(r@) == department_options(rv.take(i as int)),
        decreases rows.len() - i,
    {
        let row = &rows[i];
        assert(rv.take(i + 1).drop_last() =~= rv.take(i as int));
        assert(rv.take(i + 1).last() == row@);
        let id = cell_to_string(row, 0);
        let description = cell_to_string(row, 1);
        if !id.as_str().is_empty() {
            let ghost before = department_views(r@);
            let label = if description.as_str().is_empty() {
                id.clone()
            } else {
                let mut l: Vec<char> = Vec::new();
                push_str(&mut l, description.as_str());
                push_str(&mut l, " (");
                push_str(&mut l, id.as_str());
                push_str(&mut l, ")");
                string_of(&l)
            };
            r.push(Department { department: id, label });
            assert(department_views(r@) =~= before.push(department_option(row@)->0));
        }
        assert(department_views(r@) =~= department_options(rv.take(i + 1)));
        i = i + 1;
    }
    assert(rv.take(rows.len() as int) =~= rv);
    r
}

/// The fixed Infinity Back Office departments, as `(id, name)`.
pub open spec fn fallback_department_pairs() -> Seq<(Seq<char>, Seq<char>)> {
    seq![
        ("1"@, "Beer"@),
        ("55"@, "Cider"@),
        ("56"@, "Cigarettes/Tobacco"@),
        ("57"@, "Liqueur"@),
        ("58"@, "Miscellaneous"@),
        ("59"@, "Non Alcoholic Drinks"@),
        ("61"@, "Ready To Drink"@),
        ("62"@, "Snacks/Deli"@),
        ("63"@, "Spirits"@),
        ("64"@, "Wines"@),
    ]
}

/// The known suppliers, as `(code, name)`.
pub open spec fn fallback_supplier_pairs() -> Seq<(Seq<char>, Seq<char>)> {
    seq![("001"@, "Tasman"@), ("31"@, "Asahi"@), ("32"@, "Lion"@), ("33"@, "Hancocks"@)]
}

/// A fixed entry as an option: the value, and the label `value name`.
pub open spec fn listed_option(p: (Seq<char>, Seq<char>)) -> (Seq<char>, Seq<char>) {
    (p.0, p.0 + " "@ + p.1)
}

pub open spec fn fallback_department_options() -> Seq<(Seq<char>, Seq<char>)> {
    fallback_department_pairs().map_values(|p: (Seq<char>, Seq<char>)| listed_option(p))
}

pub open spec fn fallback_supplier_options() -> Seq<(Seq<char>, Seq<char>)> {
    fallback_supplier_pairs().map_values(|p: (Seq<char>, Seq<char>)| listed_option(p))
}

fn listed_label(value: &str, name: &str) -> (r: String)
    ensures
        r@ == value@ + " "@ + name@,
{
    let mut l: Vec<char> = Vec::new();
    push_str(&mut l, value);
    push_str(&mut l, " ");
    push_str(&mut l, name);
    assert(l@ =~= value@ + " "@ + name@);
    string_of(&l)
}

fn department_entry(id: &str, name: &str) -> (d: Department)
    ensures
        d@ == listed_option((id@, name@)),
{
    let department = string_of(&chars_of(id));
    Department { department, label: listed_label(id, name) }
}

/// The fixed department list, labelled `id name`.
pub fn fallback_departments() -> (r: Vec<Department>)
    ensures
        department_views(r@) == fallback_department_options(),
        r@.len() == 10,
{
    let mut r: Vec<Department> = Vec::new();
    r.push(department_entry("1", "Beer"));
    r.push(department_entry("55", "Cider"));
    r.push(department_entry("56", "Cigarettes/Tobacco"));
    r.push(department_entry("57", "Liqueur"));
    r.push(department_entry("58", "Miscellaneous"));
    r.push(department_entry("59", "Non Alcoholic Drinks"));
    r.push(department_entry("61", "Ready To Drink"));
    r.push(department_entry("62", "Snacks/Deli"));
    r.push(department_entry("63", "Spirits"));
    r.push(department_entry("64", "Wines"));
    assert(department_views(r@) =~= fallback_department_options());
    r
}

/// The departments to offer: the database's list when it gave a non-empty
/// one, else the fixed list. Never empty.
pub fn departments_or_fallback(result: Result<Vec<Department>, DbError>) -> (r: Vec<Department>)
    ensures
        match result {
            Ok(list) => if list@.len() > 0 {
                department_views(r@) == department_views(list@)
            } else {
                department_views(r@) == fallback_department_options()
            },
            Err(_) => department_views(r@) == fallback_department_options(),
        },
        r@.len() > 0,
{
    match result {
        Ok(list) => {
            if list.len() > 0 {
                list
            } else {
                fallback_departments()
            }
        },
        Err(_) => fallback_departments(),
    }
}

// ---------------------------------------------------------------------------
// Suppliers
// ---------------------------------------------------------------------------

/// A supplier option: the code stored in the database and the label shown.
pub struct Supplier {
    pub supplier: String,
    pub label: String,
}

impl View for Supplier {
    type V = (Seq<char>, Seq<char>);

    open spec fn view(&self) -> (Seq<char>, Seq<char>) {
        (self.supplier@, self.label@)
    }
}

pub open spec fn supplier_views(v: Seq<Supplier>) -> Seq<(Seq<char>, Seq<char>)> {
    v.map_values(|s: Supplier| s@)
}

/// `Code - LastName (FirstName)`, leaving out what is blank.
pub open spec fn supplier_label(code: Seq<char>, last: Seq<char>, first: Seq<char>) -> Seq<char> {
    if last.len() > 0 && first.len() > 0 {
        code + " - "@ + last + " ("@ + first + ")"@
    } else if last.len() > 0 {
        code + " - "@ + last
    } else if first.len() > 0 {
        code + " - ("@ + first + ")"@
    } else {
        code
    }
}

/// The option for a supplier row `(Code, LastName, FirstName)`: none when
/// the code is empty.
pub open spec fn supplier_option(row: Seq<Cell>) -> Option<(Seq<char>, Seq<char>)> {
    let code = cell_text(cell_at(row, 0));
    if code.len() == 0 {
        None
    } else {
        Some((code, supplier_label(code, cell_text(cell_at(row, 1)), cell_text(cell_at(row, 2)))))
    }
}

pub open spec fn supplier_options(rows: Seq<Seq<Cell>>) -> Seq<(Seq<char>, Seq<char>)>
    decreases rows.len(),
{
    if rows.len() == 0 {
        Seq::empty()
    } else {
        match supplier_option(rows.last()) {
            Some(s) => supplier_options(rows.drop_last()).push(s),
            None => supplier_options(rows.drop_last()),
        }
    }
}

/// The label of a supplier (see [`supplier_label`]).
pub fn supplier_label_of(code: &str, last: &str, first: &str) -> (r: String)
    ensures
        r@ == supplier_label(code@, last@, first@),
{
    let mut l: Vec<char> = Vec::new();
    push_str(&mut l, code);
    if !last.is_empty() && !first.is_empty() {
        push_str(&mut l, " - ");
        push_str(&mut l, last);
        push_str(&mut l, " (");
        push_str(&mut l, first);
        push_str(&mut l, ")");
    } else if !last.is_empty() {
        push_str(&mut l, " - ");
        push_str(&mut l, last);
    } else if !first.is_empty() {
        push_str(&mut l, " - (");
        push_str(&mut l, first);
        push_str(&mut l, ")");
    }
    assert(l@ =~= supplier_label(code@, last@, first@));
    string_of(&l)
}

/// The suppliers of rows `(Code, LastName, FirstName)`.
pub fn suppliers_from_rows(rows: &Vec<Vec<Cell>>) -> (r: Vec<Supplier>)
    ensures
        supplier_views(r@) == supplier_options(rows_view(rows@)),
{
    let ghost rv = rows_view(rows@);
    let mut r: Vec<Supplier> = Vec::new();
    let mut i: usize = 0;
    while i < rows.len()
        invariant
            i <= rows.len(),
            rv == rows_view(rows@),
            supplier_views(r@) == supplier_options(rv.take(i as int)),
        decreases rows.len() - i,
    {
        let row = &rows[i];
        assert(rv.take(i + 1).drop_last() =~= rv.take(i as int));
        assert(rv.take(i + 1).last() == row@);
        let code = cell_to_string(row, 0);
        if !code.as_str().is_empty() {
            let last = cell_to_string(row, 1);
            let first = cell_to_string(row, 2);
            let ghost before = supplier_views(r@);
            let label = supplier_label_of(code.as_str(), last.as_str(), first.as_str());
            r.push(Supplier { supplier: code, label });
            assert(supplier_views(r@) =~= before.push(supplier_option(row@)->0));
        }
        assert(supplier_views(r@) =~= supplier_options(rv.take(i + 1)));
        i = i + 1;
    }
    assert(rv.take(rows.len() as int) =~= rv);
    r
}

fn supplier_entry(code: &str, name: &str) -> (s: Supplier)
    ensures
        s@ == listed_option((code@, name@)),
{
    let supplier = string_of(&chars_of(code));
    Supplier { supplier, label: listed_label(code, name) }
}

/// The four known suppliers, labelled `code name`.
pub fn fallback_suppliers() -> (r: Vec<Supplier>)
    ensures
        supplier_views(r@) == fallback_supplier_options(),
        r@.len() == 4,
{
    let mut r: Vec<Supplier> = Vec::new();
    r.push(supplier_entry("001", "Tasman"));
    r.push(supplier_entry("31", "Asahi"));
    r.push(supplier_entry("32", "Lion"));
    r.push(supplier_entry("33", "Hancocks"));
    assert(supplier_views(r@) =~= fallback_supplier_options());
    r
}

/// The suppliers to offer: the database's list when it gave a non-empty
/// one, else the fixed list. Never empty.
pub fn suppliers_or_fallback(result: Result<Vec<Supplier>, DbError>) -> (r: Vec<Supplier>)
    ensures
        match result {
            Ok(list) => if list@.len() > 0 {
                supplier_views(r@) == supplier_views(list@)
            } else {
                supplier_views(r@) == fallback_supplier_options()
            },
            Err(_) => supplier_views(r@) == fallback_supplier_options(),
        },
        r@.len() > 0,
{
    match result {
        Ok(list) => {
            if list.len() > 0 {
                list
            } else {
                fallback_suppliers()
            }
        },
        Err(_) => fallback_suppliers(),
    }
}

// ---------------------------------------------------------------------------
// Suppliers of one department
// ---------------------------------------------------------------------------

/// The first step of the supplier lookup for a department.
pub enum SupplierLookup {
    /// No department chosen: every supplier is offered.
    AllSuppliers,
    /// Run this query for the supplier codes of the department's items.
    SupplierCodes(String),
}

/// `ALL` or an empty department gives every supplier; any other department
/// first asks for the supplier codes of its items.
pub fn plan_supplier_lookup(department: &str) -> (r: SupplierLookup)
    ensures
        is_all_filter(department@) ==> r is AllSuppliers,
        !is_all_filter(department@) ==> (r matches SupplierLookup::SupplierCodes(q) && q@
            == department_supplier_codes_sql(department@)),
{
    if is_all(department) {
        SupplierLookup::AllSuppliers
    } else {
        SupplierLookup::SupplierCodes(department_supplier_codes_query(department))
    }
}

/// The non-empty codes of the first cells of the rows, in order.
pub open spec fn supplier_codes(rows: Seq<Seq<Cell>>) -> Seq<Seq<char>>
    decreases rows.len(),
{
    if rows.len() == 0 {
        Seq::empty()
    } else if cell_text(cell_at(rows.last(), 0)).len() > 0 {
        supplier_codes(rows.drop_last()).push(cell_text(cell_at(rows.last(), 0)))
    } else {
        supplier_codes(rows.drop_last())
    }
}

/// The supplier codes of the rows of the codes query.
pub fn supplier_codes_from_rows(rows: &Vec<Vec<Cell>>) -> (r: Vec<String>)
    ensures
        strings_view(r@) == supplier_codes(rows_view(rows@)),
{
    let ghost rv = rows_view(rows@);
    let mut r: Vec<String> = Vec::new();
    let mut i: usize = 0;
    while i < rows.len()
        invariant
            i <= rows.len(),
            rv == rows_view(rows@),
            strings_view(r@) == supplier_codes(rv.take(i as int)),
        decreases rows.len() - i,
    {
        let row = &rows[i];
        assert(rv.take(i + 1).drop_last() =~= rv.take(i as int));
        assert(rv.take(i + 1).last() == row@);
        let code = cell_to_string(row, 0);
        if !code.as_str().is_empty() {
            let ghost before = strings_view(r@);
            r.push(code);
            assert(strings_view(r@) =~= before.push(cell_text(cell_at(row@, 0))));
        }
        assert(strings_view(r@) =~= supplier_codes(rv.take(i + 1)));
        i = i + 1;
    }
    assert(rv.take(rows.len() as int) =~= rv);
    r
}

/// The second step: no codes means the department has no suppliers (the
/// answer is the empty list); otherwise the query for their names.
pub fn plan_supplier_details(codes: &Vec<String>) -> (r: Option<String>)
    ensures
        codes@.len() == 0 <==> r is None,
        r matches Some(q) ==> q@ == supplier_details_sql(strings_view(codes@)),
{
    if codes.len() == 0 {
        None
    } else {
        Some(supplier_details_query(codes))
    }
}

// ---------------------------------------------------------------------------
// Barcodes and sub-departments
// ---------------------------------------------------------------------------

/// The UPCs of the rows of [`crate::sql::barcode_lookup_query`], in order.
pub fn upcs_from_rows(rows: &Vec<Vec<Cell>>) -> (r: Vec<String>)
    ensures
        r@.len() == rows@.len(),
        forall|i: int| 0 <= i < r@.len() ==> (#[trigger] r@[i])@ == cell_text(cell_at(rows@[i]@, 0)),
{
    let mut r: Vec<String> = Vec::new();
    let mut i: usize = 0;
    while i < rows.len()
        invariant
            i <= rows.len(),
            r@.len() == i,
            forall|k: int| 0 <= k < i ==> (#[trigger] r@[k])@ == cell_text(cell_at(rows@[k]@, 0)),
        decreases rows.len() - i,
    {
        r.push(cell_to_string(&rows[i], 0));
        i = i + 1;
    }
    r
}

/// A sub-department: its id, description and the id of its department.
pub struct SubDepartment {
    pub id: String,
    pub description: String,
    pub dep_id: String,
}

/// The sub-departments of rows `(ID, Description, DepID)`, in order.
pub fn sub_departments_from_rows(rows: &Vec<Vec<Cell>>) -> (r: Vec<SubDepartment>)
    ensures
        r@.len() == rows@.len(),
        forall|i: int|
            0 <= i < r@.len() ==> (#[trigger] r@[i]).id@ == cell_text(cell_at(rows@[i]@, 0))
                && r@[i].description@ == cell_text(cell_at(rows@[i]@, 1))
                && r@[i].dep_id@ == cell_text(cell_at(rows@[i]@, 2)),
{
    let mut r: Vec<SubDepartment> = Vec::new();
    let mut i: usize = 0;
    while i < rows.len()
        invariant
            i <= rows.len(),
            r@.len() == i,
            forall|k: int|
                0 <= k < i ==> (#[trigger] r@[k]).id@ == cell_text(cell_at(rows@[k]@, 0))
                    && r@[k].description@ == cell_text(cell_at(rows@[k]@, 1)) && r@[k].dep_id@
                    == cell_text(cell_at(rows@[k]@, 2)),
        decreases rows.len() - i,
    {
        let row = &rows[i];
        r.push(
            SubDepartment {
                id: cell_to_string(row, 0),
                description: cell_to_string(row, 1),
                dep_id: cell_to_string(row, 2),
            },
        );
        i = i + 1;
    }
    r
}

// ---------------------------------------------------------------------------
// Errors
// ---------------------------------------------------------------------------

/// A failure of the database layer.
pub enum DbError {
    /// The pool could not be built or a connection not made.
    Connection(String),
    /// A query failed.
    Query(String),
}

pub open spec fn db_error_text(e: DbError) -> Seq<char> {
    match e {
        DbError::Connection(m) => "Connection failed: "@ + m@,
        DbError::Query(m) => "Query failed: "@ + m@,
    }
}

impl DbError {
    /// `Connection failed: <detail>` or `Query failed: <detail>`.
    pub fn message(&self) -> (r: String)
        ensures
            r@ == db_error_text(*self),
    {
        let mut out: Vec<char> = Vec::new();
        match self {
            DbError::Connection(m) => {
                push_str(&mut out, "Connection failed: ");
                push_str(&mut out, m.as_str());
            },
            DbError::Query(m) => {
                push_str(&mut out, "Query failed: ");
                push_str(&mut out, m.as_str());
            },
        }
        assert(out@ =~= db_error_text(*self));
        string_of(&out)
    }

    /// What a route answers when the database fails: `Database error: <message>`.
    pub fn response_message(&self) -> (r: String)
        ensures
            r@ == "Database error: "@ + db_error_text(*self),
    {
        let m = self.message();
        let mut out: Vec<char> = Vec::new();
        push_str(&mut out, "Database error: ");
        push_str(&mut out, m.as_str());
        string_of(&out)
    }
}

// ---------------------------------------------------------------------------
// Laws of the lists read from rows
// ---------------------------------------------------------------------------

/// The rows whose first cell reads as non-empty text, in order.
pub open spec fn rows_with_key(rows: Seq<Seq<Cell>>) -> Seq<Seq<Cell>> {
    rows.filter(|r: Seq<Cell>| cell_text(cell_at(r, 0)).len() > 0)
}

proof fn lemma_rows_with_key_step(rows: Seq<Seq<Cell>>)
    requires
        rows.len() > 0,
    ensures
        rows_with_key(rows) == if cell_text(cell_at(rows.last(), 0)).len() > 0 {
            rows_with_key(rows.drop_last()).push(rows.last())
        } else {
            rows_with_key(rows.drop_last())
        },
{
    reveal(Seq::filter);
}

/// One department per row with an id, in the order of the rows: the `k`-th
/// option has the id of the `k`-th such row, labelled `Description (ID)`,
/// or just the id when the description is empty. No row with an id is
/// dropped, and no option comes from elsewhere.
pub proof fn law_departments_one_per_row(rows: Seq<Seq<Cell>>)
    ensures
        department_options(rows).len() == rows_with_key(rows).len(),
        forall|k: int|
            0 <= k < department_options(rows).len() ==> ({
                let id = cell_text(cell_at(rows_with_key(rows)[k], 0));
                let description = cell_text(cell_at(rows_with_key(rows)[k], 1));
                #[trigger] department_options(rows)[k] == (id, if description.len() == 0 {
                    id
                } else {
                    description + " ("@ + id + ")"@
                })
            }),
    decreases rows.len(),
{
    if rows.len() > 0 {
        law_departments_one_per_row(rows.drop_last());
        lemma_rows_with_key_step(rows);
        let prev = department_options(rows.drop_last());
        let w = rows_with_key(rows);
        let w0 = rows_with_key(rows.drop_last());
        assert forall|k: int| 0 <= k < department_options(rows).len() implies ({
            let id = cell_text(cell_at(w[k], 0));
            let description = cell_text(cell_at(w[k], 1));
            #[trigger] department_options(rows)[k] == (id, if description.len() == 0 {
                id
            } else {
                description + " ("@ + id + ")"@
            })
        }) by {
            if k < prev.len() {
                assert(department_options(rows)[k] == prev[k]);
                assert(w[k] == w0[k]);
            }
        }
    }
}

/// A supplier's label starts with its code: it is the code alone when both
/// names are blank; otherwise the code and ` - ` come first, then the last
/// name when there is one, and a first name that is there closes the label
/// in brackets.
pub proof fn law_supplier_label(code: Seq<char>, last: Seq<char>, first: Seq<char>)
    ensures
        (last.len() == 0 && first.len() == 0) ==> supplier_label(code, last, first) == code,
        (last.len() > 0 || first.len() > 0) ==> supplier_label(code, last, first).take(code.len() + 3int) == code + " - "@,
        last.len() > 0 ==> supplier_label(code, last, first).take(code.len() + 3int + last.len())
            == code + " - "@ + last,
        first.len() > 0 ==> supplier_label(code, last, first).skip(
            supplier_label(code, last, first).len() - first.len() - 2int,
        ) == "("@ + first + ")"@,
        first.len() == 0 ==> supplier_label(code, last, first) == if last.len() > 0 {
            code + " - "@ + last
        } else {
            code
        },
{
    reveal_strlit(" - ");
    reveal_strlit(" (");
    reveal_strlit("(");
    reveal_strlit(")");
    reveal_strlit(" - (");
    let l = supplier_label(code, last, first);
    if last.len() > 0 && first.len() > 0 {
        assert(l.take(code.len() + 3int) =~= code + " - "@);
        assert(l.take(code.len() + 3int + last.len()) =~= code + " - "@ + last);
        assert(l.skip(l.len() - first.len() - 2int) =~= "("@ + first + ")"@);
    } else if last.len() > 0 {
        assert(l.take(code.len() + 3int) =~= code + " - "@);
        assert(l.take(code.len() + 3int + last.len()) =~= code + " - "@ + last);
    } else if first.len() > 0 {
        assert(l.take(code.len() + 3int) =~= code + " - "@);
        assert(l.skip(l.len() - first.len() - 2int) =~= "("@ + first + ")"@);
    }
}

/// One supplier per row with a code, in the order of the rows: the `k`-th
/// option has the code of the `k`-th such row, labelled by
/// [`supplier_label`] of its code and names. A row is dropped only when its
/// code is empty, whatever its names.
pub proof fn law_suppliers_one_per_row(rows: Seq<Seq<Cell>>)
    ensures
        supplier_options(rows).len() == rows_with_key(rows).len(),
        forall|k: int|
            0 <= k < supplier_options(rows).len() ==> ({
                let r = rows_with_key(rows)[k];
                let code = cell_text(cell_at(r, 0));
                #[trigger] supplier_options(rows)[k] == (code, supplier_label(
                    code,
                    cell_text(cell_at(r, 1)),
                    cell_text(cell_at(r, 2)),
                ))
            }),
    decreases rows.len(),
{
    if rows.len() > 0 {
        law_suppliers_one_per_row(rows.drop_last());
        lemma_rows_with_key_step(rows);
        let prev = supplier_options(rows.drop_last());
        let w = rows_with_key(rows);
        let w0 = rows_with_key(rows.drop_last());
        assert forall|k: int| 0 <= k < supplier_options(rows).len() implies ({
            let r = w[k];
            let code = cell_text(cell_at(r, 0));
            #[trigger] supplier_options(rows)[k] == (code, supplier_label(
                code,
                cell_text(cell_at(r, 1)),
                cell_text(cell_at(r, 2)),
            ))
        }) by {
            if k < prev.len() {
                assert(supplier_options(rows)[k] == prev[k]);
                assert(w[k] == w0[k]);
            }
        }
    }
}

} // verus!
