use stocktake::save::CountedRow;
use stocktake::tickets::{criteria_blocks_of, reindex_block, ticket_file_text, ticket_row_count};

fn ticket(upc: &str, qty: i32) -> CountedRow {
    CountedRow {
        upc: upc.to_string(),
        count_text: "0.0000".to_string(),
        count_is_zero: true,
        has_ticket: true,
        ticket_qty: qty,
    }
}

fn counted(upc: &str) -> CountedRow {
    CountedRow {
        upc: upc.to_string(),
        count_text: "4.0000".to_string(),
        count_is_zero: false,
        has_ticket: false,
        ticket_qty: 1,
    }
}

// The blocks of a file, read with std's string methods for comparison.
fn blocks_by_line_scan(content: &str) -> Vec<String> {
    let mut blocks = Vec::new();
    let mut in_criteria = false;
    let mut current = String::new();
    for line in content.lines() {
        let trimmed = line.trim();
        if trimmed.starts_with("[Criteria") && trimmed.ends_with(']') {
            if in_criteria && !current.is_empty() {
                blocks.push(current.trim_end().to_string());
            }
            in_criteria = true;
            current = String::new();
        }
        if in_criteria {
            current.push_str(line);
            current.push('\n');
        }
    }
    if in_criteria && !current.is_empty() {
        blocks.push(current.trim_end().to_string());
    }
    blocks
}

#[test]
fn two_items_one_label_each() {
    let rows = vec![ticket("9421033031648", 1), counted("111"), ticket("080686010111", 1)];
    assert_eq!(ticket_row_count(&rows), 2);
    let want = "[Header]
Application=LabelQuery
SaveFileVersion=3
[Label]
Type=1
CriteriaCount=2
[Criteria0]
Description=UPC equals '9421033031648'
BaseQuery=
SQLConditions=i.InActive=0 and ((i.upc = '9421033031648')or (exists(select * from ItemBarcodes ib where (ib.upc=i.upc) and (ib.barcode='9421033031648'))))
SQLOrderBy=i.SKU
CopiesDesc=1
SQLCopies=1
PostPrintAction=0
CopiesExceptionCount=0
[Criteria1]
Description=UPC equals '080686010111'
BaseQuery=
SQLConditions=i.InActive=0 and ((i.upc = '080686010111')or (exists(select * from ItemBarcodes ib where (ib.upc=i.upc) and (ib.barcode='080686010111'))))
SQLOrderBy=i.SKU
CopiesDesc=1
SQLCopies=1
PostPrintAction=0
CopiesExceptionCount=0
";
    assert_eq!(ticket_file_text(&Vec::new(), &rows), want);
}

#[test]
fn three_labels_add_an_exception() {
    let text = ticket_file_text(&Vec::new(), &vec![ticket("9421033031648", 3)]);
    assert!(text.ends_with(
        "CopiesDesc=3\nSQLCopies=3\nPostPrintAction=0\nCopiesException0Code=9421033031648\nCopiesException0Value=3\nCopiesExceptionCount=1\n"
    ));
    let neg = ticket_file_text(&Vec::new(), &vec![ticket("1", -2)]);
    assert!(neg.contains("CopiesDesc=-2\n"));
}

#[test]
fn blocks_match_a_line_scan() {
    let samples = [
        "[Header]\nCriteriaCount=1\n[Criteria7]\nDescription=x\nSQLCopies=1   \n\n",
        "no criteria at all\n",
        "  [Criteria0]  \r\nA=1\r\n[Criteria9]\nB=2",
        "",
        "[Criteria]\n[CriteriaX]\n",
    ];
    for s in samples {
        assert_eq!(criteria_blocks_of(s), blocks_by_line_scan(s), "sample {:?}", s);
    }
}

#[test]
fn reindex_replaces_the_first_line() {
    for (block, i) in [("[Criteria7]\nA=1\nB=2", 0usize), ("  [Criteria3]", 12), ("[Criteria1]\n", 2)] {
        let first = &block[..block.find('\n').unwrap_or(block.len())];
        let want = block.replacen(first, &format!("[Criteria{}]", i), 1);
        assert_eq!(reindex_block(block, i), want);
    }
}

#[test]
fn tickets_accumulate_across_saves() {
    let first = ticket_file_text(&Vec::new(), &vec![ticket("UPC-A", 1), ticket("UPC-B", 2)]);
    let carried = criteria_blocks_of(&first);
    assert_eq!(carried.len(), 2);
    let second = ticket_file_text(&carried, &vec![ticket("UPC-C", 1)]);
    assert!(second.contains("CriteriaCount=3\n"));
    let blocks = criteria_blocks_of(&second);
    assert_eq!(blocks.len(), 3);
    assert!(blocks[0].starts_with("[Criteria0]\nDescription=UPC equals 'UPC-A'"));
    assert!(blocks[1].starts_with("[Criteria1]\nDescription=UPC equals 'UPC-B'"));
    assert!(blocks[1].ends_with("CopiesExceptionCount=1"));
    assert!(blocks[2].starts_with("[Criteria2]\nDescription=UPC equals 'UPC-C'"));
    assert_eq!(blocks[0], carried[0]);
    assert_eq!(blocks[1], carried[1]);
}

#[test]
fn carried_blocks_are_reindexed() {
    let old = "[Header]\n[Criteria5]\nDescription=UPC equals 'Z'\nCopiesExceptionCount=0\n";
    let carried = criteria_blocks_of(old);
    let text = ticket_file_text(&carried, &vec![counted("not a ticket")]);
    assert_eq!(
        text,
        "[Header]\nApplication=LabelQuery\nSaveFileVersion=3\n[Label]\nType=1\nCriteriaCount=1\n[Criteria0]\nDescription=UPC equals 'Z'\nCopiesExceptionCount=0\n"
    );
}
