use stocktake::sql::{
    barcode_lookup_query, department_supplier_codes_query, departments_query, escape_sql, is_all,
    refresh_upc_query, search_items_query, sub_departments_query, supplier_details_query,
    suppliers_query,
};

#[test]
fn escape_doubles_single_quotes() {
    assert_eq!(escape_sql("O'Brien"), "O''Brien");
    assert_eq!(escape_sql("''"), "''''");
    assert_eq!(escape_sql("plain"), "plain");
    for s in ["a'b'c", "", "'", "x''y"] {
        assert_eq!(escape_sql(s), s.replace('\'', "''"));
    }
}

#[test]
fn quoted_value_reads_back() {
    // A SQL reader that stops at a lone quote finds the value that was quoted.
    fn read_literal(t: &str) -> (String, String) {
        let chars: Vec<char> = t.chars().collect();
        let mut value = String::new();
        let mut i = 0;
        loop {
            if chars[i] == '\'' {
                if i + 1 < chars.len() && chars[i + 1] == '\'' {
                    value.push('\'');
                    i += 2;
                } else {
                    return (value, chars[i + 1..].iter().collect());
                }
            } else {
                value.push(chars[i]);
                i += 1;
            }
        }
    }
    for s in ["it's", "'; DROP TABLE Items; --", "''", "x"] {
        let text = format!("{}' ORDER BY x", escape_sql(s));
        assert_eq!(read_literal(&text), (s.to_string(), " ORDER BY x".to_string()));
    }
}

#[test]
fn fixed_queries() {
    assert_eq!(
        departments_query(),
        "SELECT ID, Description FROM Departments WHERE Description NOT IN ('Non Sales', 'EPay')"
    );
    assert_eq!(
        suppliers_query(),
        "SELECT Code, LastName, FirstName FROM Customers WHERE CustType = 'R' AND InActive = '0'"
    );
}

#[test]
fn refresh_upc_query_text() {
    let q = refresh_upc_query("93'1");
    let want = format!(
        "SELECT TOP 1 CAST((m.QtyOnHand + m.Quantity) AS FLOAT) AS StockOnHand \
         FROM [ItemMovement] m \
         WHERE m.UPC = '{}' \
         ORDER BY m.ID DESC",
        "93''1"
    );
    assert_eq!(q, want);
}

#[test]
fn supplier_queries_text() {
    let q = department_supplier_codes_query("63");
    assert_eq!(
        q,
        "SELECT DISTINCT i.Supplier FROM Items i WHERE i.InActive = '0' AND i.Department = '63' AND i.Supplier IS NOT NULL AND i.Supplier <> '' ORDER BY i.Supplier"
    );
    let codes = vec!["001".to_string(), "O'K".to_string()];
    assert_eq!(
        supplier_details_query(&codes),
        "SELECT Code, LastName, FirstName FROM Customers WHERE CustType = 'R' AND InActive = '0' AND Code IN ('001','O''K') ORDER BY Code"
    );
}

fn search_sql_by_format(dept: &str, sup: &str, sub: &str) -> String {
    let clause = |col: &str, v: &str| {
        if v != "ALL" && !v.is_empty() {
            format!(" AND i.{} = '{}'", col, v.replace('\'', "''"))
        } else {
            String::new()
        }
    };
    format!(
        "SELECT
                i.UPC,
                i.[Description],
                i.[Department],
                i.[Supplier],
                (
                    SELECT TOP 1 CAST((m.QtyOnHand + m.Quantity) AS FLOAT)
                    FROM [ItemMovement] m
                    WHERE m.UPC = i.UPC
                    ORDER BY m.ID Desc
                ) AS StockOnHand,
                ISNULL(i.ParentUPC, '') AS ParentUPC,
                ISNULL(i.SellingQty, 0) AS SellingQty
            FROM Items i
            WHERE i.InActive = '0'
                {}
                {}
                {}
            ORDER BY i.[Description]",
        clause("Department", dept),
        clause("Supplier", sup),
        clause("SubDepartment", sub)
    )
}

#[test]
fn search_query_text() {
    for (d, s, sub) in [("ALL", "ALL", "ALL"), ("63", "", "ALL"), ("1", "O'Neil", "7"), ("", "32", "")] {
        assert_eq!(search_items_query(d, s, sub), search_sql_by_format(d, s, sub));
    }
}

#[test]
fn all_filter_values() {
    assert!(is_all("ALL"));
    assert!(is_all(""));
    assert!(!is_all("all"));
    assert!(!is_all("ALLX"));
    assert!(!is_all("1"));
}

#[test]
fn barcode_and_sub_department_queries() {
    assert_eq!(
        barcode_lookup_query("94'2"),
        "SELECT UPC FROM ItemBarcodes WHERE barcode = '94''2'"
    );
    assert_eq!(
        sub_departments_query("63"),
        "SELECT [ID], [Description], [DepID] FROM SubDepartments WHERE DepID = '63'"
    );
}

#[test]
fn filters_only_narrow_the_search() {
    let all = search_items_query("ALL", "ALL", "ALL");
    assert_eq!(search_items_query("", "", ""), all);
    assert_eq!(search_items_query("", "ALL", ""), all);
    let narrowed = search_items_query("63", "ALL", "ALL");
    let clause = " AND i.Department = '63'";
    let at = narrowed.find(clause).unwrap();
    assert_eq!(format!("{}{}", &narrowed[..at], &narrowed[at + clause.len()..]), all);
    let narrowed = search_items_query("ALL", "O'K", "");
    let clause = " AND i.Supplier = 'O''K'";
    let at = narrowed.find(clause).unwrap();
    assert_eq!(format!("{}{}", &narrowed[..at], &narrowed[at + clause.len()..]), all);
}
