use stocktake::catalog::{
    cell_to_string, departments_from_rows, departments_or_fallback, fallback_departments,
    fallback_suppliers, plan_supplier_details, plan_supplier_lookup, sub_departments_from_rows,
    supplier_codes_from_rows, supplier_label_of, suppliers_from_rows, suppliers_or_fallback,
    upcs_from_rows, Cell, DbError, Department, Supplier, SupplierLookup,
};

fn text(s: &str) -> Cell {
    Cell::Text(s.to_string())
}

#[test]
fn cell_text_of_each_kind() {
    let row = vec![
        text("  12 "),
        Cell::SmallInt(-7),
        Cell::Int(2147483647),
        Cell::BigInt(i64::MIN),
        Cell::TinyInt(255),
        Cell::Other,
    ];
    assert_eq!(cell_to_string(&row, 0), "12");
    assert_eq!(cell_to_string(&row, 1), "-7");
    assert_eq!(cell_to_string(&row, 2), "2147483647");
    assert_eq!(cell_to_string(&row, 3), i64::MIN.to_string());
    assert_eq!(cell_to_string(&row, 4), "255");
    assert_eq!(cell_to_string(&row, 5), "");
}

#[test]
fn departments_from_database_rows() {
    let rows = vec![
        vec![Cell::SmallInt(1), text("Beer")],
        vec![text(""), text("No id")],
        vec![text("55"), text("   ")],
        vec![Cell::Other, Cell::Other],
    ];
    let deps = departments_from_rows(&rows);
    assert_eq!(deps.len(), 2);
    assert_eq!(deps[0].department, "1");
    assert_eq!(deps[0].label, "Beer (1)");
    assert_eq!(deps[1].department, "55");
    assert_eq!(deps[1].label, "55");
}

#[test]
fn supplier_labels_leave_out_blanks() {
    assert_eq!(supplier_label_of("001", "Tasman", "Dist"), "001 - Tasman (Dist)");
    assert_eq!(supplier_label_of("001", "Tasman", ""), "001 - Tasman");
    assert_eq!(supplier_label_of("001", "", "Dist"), "001 - (Dist)");
    assert_eq!(supplier_label_of("001", "", ""), "001");
}

#[test]
fn suppliers_from_database_rows() {
    let rows = vec![
        vec![text("31"), text("Asahi "), text("")],
        vec![text(" "), text("Nobody"), text("X")],
        vec![Cell::Int(32), Cell::Other, text("Lion")],
    ];
    let sups = suppliers_from_rows(&rows);
    assert_eq!(sups.len(), 2);
    assert_eq!(sups[0].supplier, "31");
    assert_eq!(sups[0].label, "31 - Asahi");
    assert_eq!(sups[1].supplier, "32");
    assert_eq!(sups[1].label, "32 - (Lion)");
}

fn dept_pairs(v: &[Department]) -> Vec<(String, String)> {
    v.iter().map(|d| (d.department.clone(), d.label.clone())).collect()
}

fn sup_pairs(v: &[Supplier]) -> Vec<(String, String)> {
    v.iter().map(|s| (s.supplier.clone(), s.label.clone())).collect()
}

#[test]
fn fallback_lists_are_the_fixed_ones() {
    let deps = dept_pairs(&fallback_departments());
    let want: Vec<(String, String)> = [
        ("1", "Beer"),
        ("55", "Cider"),
        ("56", "Cigarettes/Tobacco"),
        ("57", "Liqueur"),
        ("58", "Miscellaneous"),
        ("59", "Non Alcoholic Drinks"),
        ("61", "Ready To Drink"),
        ("62", "Snacks/Deli"),
        ("63", "Spirits"),
        ("64", "Wines"),
    ]
    .iter()
    .map(|(id, name)| (id.to_string(), format!("{} {}", id, name)))
    .collect();
    assert_eq!(deps, want);
    let sups = sup_pairs(&fallback_suppliers());
    assert_eq!(
        sups,
        vec![
            ("001".to_string(), "001 Tasman".to_string()),
            ("31".to_string(), "31 Asahi".to_string()),
            ("32".to_string(), "32 Lion".to_string()),
            ("33".to_string(), "33 Hancocks".to_string()),
        ]
    );
}

#[test]
fn database_list_wins_when_not_empty() {
    let live = vec![Department { department: "9".to_string(), label: "Nine (9)".to_string() }];
    let got = departments_or_fallback(Ok(live));
    assert_eq!(dept_pairs(&got), vec![("9".to_string(), "Nine (9)".to_string())]);
}

#[test]
fn fallback_when_database_is_empty_or_down() {
    assert_eq!(departments_or_fallback(Ok(Vec::new())).len(), 10);
    assert_eq!(
        departments_or_fallback(Err(DbError::Connection("refused".to_string()))).len(),
        10
    );
    assert_eq!(suppliers_or_fallback(Ok(Vec::new())).len(), 4);
    assert_eq!(suppliers_or_fallback(Err(DbError::Query("bad".to_string()))).len(), 4);
    let live = vec![Supplier { supplier: "7".to_string(), label: "7".to_string() }];
    assert_eq!(sup_pairs(&suppliers_or_fallback(Ok(live))), vec![("7".to_string(), "7".to_string())]);
}

#[test]
fn dropdowns_are_never_empty() {
    for r in [Ok(Vec::new()), Err(DbError::Connection(String::new()))] {
        assert!(!departments_or_fallback(r).is_empty());
    }
    for r in [Ok(Vec::new()), Err(DbError::Query(String::new()))] {
        assert!(!suppliers_or_fallback(r).is_empty());
    }
}

#[test]
fn supplier_lookup_steps() {
    assert!(matches!(plan_supplier_lookup("ALL"), SupplierLookup::AllSuppliers));
    assert!(matches!(plan_supplier_lookup(""), SupplierLookup::AllSuppliers));
    match plan_supplier_lookup("6'3") {
        SupplierLookup::SupplierCodes(q) => assert!(q.contains("i.Department = '6''3'")),
        SupplierLookup::AllSuppliers => panic!("a department was given"),
    }
    let rows = vec![vec![text("001")], vec![text("")], vec![Cell::Int(32)]];
    let codes = supplier_codes_from_rows(&rows);
    assert_eq!(codes, vec!["001".to_string(), "32".to_string()]);
    assert!(plan_supplier_details(&Vec::new()).is_none());
    let q = plan_supplier_details(&codes).unwrap();
    assert!(q.ends_with("Code IN ('001','32') ORDER BY Code"));
}

#[test]
fn barcode_and_sub_department_rows() {
    let rows = vec![vec![text(" 931 ")], vec![Cell::BigInt(42)]];
    assert_eq!(upcs_from_rows(&rows), vec!["931".to_string(), "42".to_string()]);
    let rows = vec![vec![Cell::Int(3), text("Gin"), Cell::Int(63)]];
    let subs = sub_departments_from_rows(&rows);
    assert_eq!(subs.len(), 1);
    assert_eq!((subs[0].id.as_str(), subs[0].description.as_str(), subs[0].dep_id.as_str()), ("3", "Gin", "63"));
}

#[test]
fn db_error_messages() {
    let e = DbError::Connection("timeout".to_string());
    assert_eq!(e.message(), "Connection failed: timeout");
    assert_eq!(e.response_message(), "Database error: Connection failed: timeout");
    assert_eq!(DbError::Query("x".to_string()).message(), "Query failed: x");
}

#[test]
fn missing_cells_read_as_empty() {
    let row = vec![text(" 7 ")];
    assert_eq!(cell_to_string(&row, 0), "7");
    assert_eq!(cell_to_string(&row, 1), "");
    assert_eq!(cell_to_string(&row, 5), "");
    let d = departments_from_rows(&vec![vec![text("5")], vec![]]);
    assert_eq!(d.len(), 1);
    assert_eq!(d[0].department, "5");
    assert_eq!(d[0].label, "5");
    let s = suppliers_from_rows(&vec![vec![text("001"), text("Tasman")]]);
    assert_eq!(s[0].label, "001 - Tasman");
    assert!(upcs_from_rows(&vec![vec![]])[0].is_empty());
}
