use stocktake::server::{filter_or_all, BarcodeQuery, DeptQuery, OutputDir, SearchQuery, SubDeptQuery, UpcQuery};

#[test]
fn absent_filters_mean_all() {
    assert_eq!(filter_or_all(&None), "ALL");
    assert_eq!(filter_or_all(&Some("63".to_string())), "63");
    let q = SearchQuery { department: None, supplier: Some("32".to_string()), sub_department: None };
    assert_eq!(q.filters(), ("ALL".to_string(), "32".to_string(), "ALL".to_string()));
    assert_eq!(DeptQuery { department: None }.department_or_all(), "ALL");
    assert_eq!(SubDeptQuery { department: None }.department_or_empty(), "");
    assert_eq!(SubDeptQuery { department: Some("63".to_string()) }.department_or_empty(), "63");
}

#[test]
fn missing_upc_is_refused() {
    assert_eq!(UpcQuery { upc: None }.requested_upc().unwrap_err(), "Missing upc query parameter");
    assert_eq!(UpcQuery { upc: Some(String::new()) }.requested_upc().unwrap_err(), "Missing upc query parameter");
    assert_eq!(UpcQuery { upc: Some("93".to_string()) }.requested_upc().unwrap(), "93");
}

#[test]
fn barcode_is_trimmed_and_must_not_be_empty() {
    assert_eq!(BarcodeQuery { barcode: "  942 \n".to_string() }.requested_barcode().unwrap(), "942");
    assert_eq!(
        BarcodeQuery { barcode: " \t ".to_string() }.requested_barcode().unwrap_err(),
        "Missing barcode query parameter"
    );
}

#[test]
fn output_dir_holds_its_path() {
    let d = OutputDir("stocktake_output".to_string());
    assert_eq!(d.0, "stocktake_output");
}
