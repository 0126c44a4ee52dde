use stocktake::search::{
    children_query, children_to_fetch, missing_parents_query, new_item_indices, next_expansion,
    parents_to_fetch, ExpansionStep, ItemKey,
};

fn key(upc: &str, parent: &str) -> ItemKey {
    ItemKey { upc: upc.to_string(), parent_upc: parent.to_string() }
}

fn strings(v: &[&str]) -> Vec<String> {
    v.iter().map(|s| s.to_string()).collect()
}

#[test]
fn parents_of_found_children_are_fetched_once() {
    let items = vec![key("C1", "P1"), key("C2", "P1"), key("P2", ""), key("C3", "P2"), key("C4", "P3")];
    assert_eq!(parents_to_fetch(&items, &Vec::new()), strings(&["P1", "P3"]));
    assert_eq!(parents_to_fetch(&items, &strings(&["P1"])), strings(&["P3"]));
}

#[test]
fn children_of_every_item_are_fetched_once() {
    let items = vec![key("P2", ""), key("C3", "P2"), key("P2", ""), key("P4", "")];
    assert_eq!(children_to_fetch(&items, &Vec::new()), strings(&["P2", "C3", "P4"]));
    assert_eq!(children_to_fetch(&items, &strings(&["P2", "C3"])), strings(&["P4"]));
}

/// Runs the expansion against a table of active items `(UPC, parent)`, as
/// the service does against the database.
fn expand(db: &[(&str, &str)], found: &[(&str, &str)]) -> (Vec<(String, String)>, usize) {
    let mut items: Vec<(String, String)> =
        found.iter().map(|(u, p)| (u.to_string(), p.to_string())).collect();
    let mut asked_parents: Vec<String> = Vec::new();
    let mut asked_children: Vec<String> = Vec::new();
    let mut queries = 0;
    loop {
        let keys: Vec<ItemKey> = items.iter().map(|(u, p)| key(u, p)).collect();
        let fetched: Vec<(String, String)> =
            match next_expansion(&keys, &asked_parents, &asked_children) {
                ExpansionStep::FetchParents { upcs, query } => {
                    assert!(query.contains("i.UPC IN ("));
                    let f = db.iter().filter(|(u, _)| upcs.iter().any(|x| x == u));
                    let f = f.map(|(u, p)| (u.to_string(), p.to_string())).collect();
                    asked_parents.extend(upcs);
                    f
                }
                ExpansionStep::FetchChildren { upcs, query } => {
                    assert!(query.contains("i.ParentUPC IN ("));
                    let f = db.iter().filter(|(_, p)| upcs.iter().any(|x| x == p));
                    let f = f.map(|(u, p)| (u.to_string(), p.to_string())).collect();
                    asked_children.extend(upcs);
                    f
                }
                ExpansionStep::Done => break,
            };
        queries += 1;
        let present: Vec<String> = items.iter().map(|(u, _)| u.clone()).collect();
        let upcs: Vec<String> = fetched.iter().map(|(u, _)| u.clone()).collect();
        for i in new_item_indices(&present, &upcs) {
            items.push(fetched[i].clone());
        }
    }
    (items, queries)
}

#[test]
fn a_fetched_parent_brings_its_other_children() {
    let db = [("P", ""), ("C1", "P"), ("C2", "P"), ("C3", "P"), ("Q", ""), ("D1", "Q")];
    let (items, queries) = expand(&db, &[("C1", "P")]);
    let upcs: Vec<&str> = items.iter().map(|(u, _)| u.as_str()).collect();
    assert_eq!(upcs, vec!["C1", "P", "C2", "C3"]);
    assert_eq!(queries, 3);
    // closed under the links of the table
    for (u, p) in &db {
        let parent_in = items.iter().any(|(x, _)| x == p);
        let child_in = items.iter().any(|(x, _)| x == u);
        if parent_in {
            assert!(child_in, "child {} of a found item is missing", u);
        }
    }
}

#[test]
fn a_found_parent_brings_its_children() {
    let db = [("P", ""), ("C1", "P"), ("C2", "P")];
    let (items, _) = expand(&db, &[("P", "")]);
    let upcs: Vec<&str> = items.iter().map(|(u, _)| u.as_str()).collect();
    assert_eq!(upcs, vec!["P", "C1", "C2"]);
}

#[test]
fn nothing_to_expand_is_done_at_once() {
    let keys = vec![key("A", "")];
    assert!(matches!(next_expansion(&keys, &Vec::new(), &strings(&["A"])), ExpansionStep::Done));
    assert!(matches!(next_expansion(&Vec::new(), &Vec::new(), &Vec::new()), ExpansionStep::Done));
}

#[test]
fn each_fetched_item_joins_once() {
    let present = vec!["A".to_string(), "B".to_string()];
    let fetched = vec!["B".to_string(), "C".to_string(), "C".to_string(), "D".to_string()];
    assert_eq!(new_item_indices(&present, &fetched), vec![1, 3]);
}

#[test]
fn expansion_queries() {
    assert!(missing_parents_query(&Vec::new()).is_none());
    assert!(children_query(&Vec::new()).is_none());
    let q = missing_parents_query(&vec!["P'1".to_string(), "P3".to_string()]).unwrap();
    assert!(q.ends_with("  AND i.UPC IN ('P''1','P3')\nORDER BY i.[Description]"));
    let q = children_query(&vec!["P2".to_string()]).unwrap();
    assert!(q.ends_with("  AND i.ParentUPC IN ('P2')\nORDER BY i.[Description]"));
    assert!(q.starts_with("SELECT i.UPC, i.[Description], i.[Department], i.[Supplier],"));
}
