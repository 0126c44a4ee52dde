use stocktake::save::{
    check_save_rows, count_file_text, default_ticket_qty, is_ticket_file_extension, plan_save,
    plan_save_at, save_failed_message, saved_message, tickets_dir_name, timestamp_text,
    writes_count_file,
    writes_ticket_file, CountedRow,
};

fn row(upc: &str, count: &str, zero: bool, ticket: bool, qty: i32) -> CountedRow {
    CountedRow {
        upc: upc.to_string(),
        count_text: count.to_string(),
        count_is_zero: zero,
        has_ticket: ticket,
        ticket_qty: qty,
    }
}

#[test]
fn ticket_quantity_defaults_to_one() {
    assert_eq!(default_ticket_qty(), 1);
}

#[test]
fn count_file_lines() {
    let rows = vec![
        row("1234567890123", "12.0000", false, false, 1),
        row("9876543210987", "0.0000", true, false, 1),
        row("555", "0.0000", true, true, 2),
        row("777", "3.5000", false, true, 1),
    ];
    assert_eq!(
        count_file_text(&rows),
        "0,1234567890123,12.0000,\n0,9876543210987,0.0000,\n0,777,3.5000,\n"
    );
}

#[test]
fn count_file_read_back_gives_one_record_per_row() {
    let rows = vec![row("a1", "1.0000", false, false, 1), row("b2", "0.0000", true, true, 1), row("c3", "0.0000", true, false, 1)];
    let text = count_file_text(&rows);
    let got: Vec<&str> = text.lines().collect();
    assert_eq!(got, vec!["0,a1,1.0000,", "0,c3,0.0000,"]);
}

#[test]
fn ticket_only_zero_rows_skip_the_count_file() {
    let rows = vec![row("555", "0.0000", true, true, 1), row("556", "0.0000", true, true, 3)];
    assert!(!writes_count_file(&rows));
    assert!(writes_ticket_file(&rows));
    let plan = plan_save_at(&rows, "2026-06-01-12-00-00".to_string());
    assert!(plan.count_file.is_none());
    assert_eq!(plan.count_file_name, "stocktake-2026-06-01-12-00-00.txt");
    assert_eq!(plan.ticket_file_name.as_deref(), Some("tickets-2026-06-01-12-00-00.qry"));
}

#[test]
fn counts_without_tickets_write_no_ticket_file() {
    let rows = vec![row("1", "2.0000", false, false, 1)];
    let plan = plan_save_at(&rows, "t".to_string());
    assert_eq!(plan.count_file.as_deref(), Some("0,1,2.0000,\n"));
    assert!(plan.ticket_file_name.is_none());
    assert_eq!(plan.timestamp, "t");
}

#[test]
fn plan_now_uses_a_timestamp() {
    let rows = vec![row("1", "2.0000", false, true, 1)];
    let plan = plan_save(&rows);
    assert_eq!(plan.timestamp.len(), 19);
    assert_eq!(plan.count_file_name, format!("stocktake-{}.txt", plan.timestamp));
    assert_eq!(plan.ticket_file_name, Some(format!("tickets-{}.qry", plan.timestamp)));
}

#[test]
fn save_messages() {
    assert_eq!(saved_message(3), "Saved 3 rows");
    assert_eq!(save_failed_message("disk full"), "Failed to save: disk full");
    assert_eq!(check_save_rows(&Vec::new()).unwrap_err(), "No rows to save");
    assert!(check_save_rows(&vec![row("1", "1.0000", false, false, 1)]).is_ok());
    assert_eq!(tickets_dir_name(), "tickets");
    assert!(is_ticket_file_extension("qry"));
    assert!(!is_ticket_file_extension("txt"));
}

#[test]
fn timestamp_has_the_file_name_form() {
    let plan = plan_save(&vec![row("1", "2.0000", false, false, 1)]);
    let t: Vec<char> = plan.timestamp.chars().collect();
    let n = t.len();
    assert!(n >= 19);
    for k in 0..15 {
        let c = t[n - 15 + k];
        if k % 3 == 0 {
            assert_eq!(c, '-');
        } else {
            assert!(c.is_ascii_digit());
        }
    }
    assert!(t[..n - 15].iter().all(|c| c.is_ascii_digit()));
}

#[test]
fn timestamp_text_of_local_times() {
    assert_eq!(timestamp_text(2024, 3, 9, 7, 5, 0, 0), "2024-03-09-07-05-00");
    assert_eq!(timestamp_text(2024, 12, 31, 23, 59, 59, 1_000_000_000), "2024-12-31-23-59-60");
    assert_eq!(timestamp_text(999, 1, 1, 0, 0, 0, 0), "0999-01-01-00-00-00");
    assert_eq!(timestamp_text(-1, 1, 1, 0, 0, 0, 0), "-0001-01-01-00-00-00");
    assert_eq!(timestamp_text(10000, 1, 1, 0, 0, 0, 0), "+10000-01-01-00-00-00");
    let dt = chrono::NaiveDate::from_ymd_opt(999, 1, 1).unwrap().and_hms_opt(0, 0, 0).unwrap();
    assert_eq!(dt.format("%Y-%m-%d-%H-%M-%S").to_string(), "0999-01-01-00-00-00");
    let dt = chrono::NaiveDate::from_ymd_opt(-1, 1, 1).unwrap().and_hms_opt(0, 0, 0).unwrap();
    assert_eq!(dt.format("%Y-%m-%d-%H-%M-%S").to_string(), "-0001-01-01-00-00-00");
    let dt = chrono::NaiveDate::from_ymd_opt(10000, 1, 1).unwrap().and_hms_opt(0, 0, 0).unwrap();
    assert_eq!(dt.format("%Y-%m-%d-%H-%M-%S").to_string(), "+10000-01-01-00-00-00");
}
