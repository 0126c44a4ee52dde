//! The item search brings parents and children together: the parents of the
//! children it found and the children of the parents it found are fetched
//! too, each item once.
use vstd::prelude::*;

use crate::sql::quoted_list;
use crate::text::{push_str, string_of};

verus! {

/// What the expansion reads of an item: its UPC and its parent's UPC
/// (empty for an item without a parent).
pub struct ItemKey {
    pub upc: String,
    pub parent_upc: String,
}

pub open spec fn key_views(v: Seq<ItemKey>) -> Seq<(Seq<char>, Seq<char>)> {
    v.map_values(|k: ItemKey| (k.upc@, k.parent_upc@))
}

pub open spec fn string_views(v: Seq<String>) -> Seq<Seq<char>> {
    v.map_values(|s: String| s@)
}

pub open spec fn has_upc(items: Seq<(Seq<char>, Seq<char>)>, u: Seq<char>) -> bool {
    exists|i: int| 0 <= i < items.len() && (#[trigger] items[i]).0 == u
}

/// The parents still to fetch: each non-empty parent UPC of an item that is
/// neither an item's UPC nor asked for already, once, in order of first
/// mention.
pub open spec fn missing_parents(
    items: Seq<(Seq<char>, Seq<char>)>,
    asked: Seq<Seq<char>>,
    n: nat,
) -> Seq<Seq<char>>
    decreases n,
{
    if n == 0 {
        Seq::empty()
    } else {
        let acc = missing_parents(items, asked, (n - 1) as nat);
        let p = items[n - 1].1;
        if p.len() > 0 && !has_upc(items, p) && !asked.contains(p) && !acc.contains(p) {
            acc.push(p)
        } else {
            acc
        }
    }
}

/// The items whose children are still to fetch: the UPC of each item not
/// asked for already, once, in order.
pub open spec fn unasked_upcs(
    items: Seq<(Seq<char>, Seq<char>)>,
    asked: Seq<Seq<char>>,
    n: nat,
) -> Seq<Seq<char>>
    decreases n,
{
    if n == 0 {
        Seq::empty()
    } else {
        let acc = unasked_upcs(items, asked, (n - 1) as nat);
        let u = items[n - 1].0;
        if !asked.contains(u) && !acc.contains(u) {
            acc.push(u)
        } else {
            acc
        }
    }
}

/// Every item's parent is among the items or was asked for.
pub open spec fn parents_settled(items: Seq<(Seq<char>, Seq<char>)>, asked: Seq<Seq<char>>) -> bool {
    forall|i: int|
        0 <= i < items.len() && (#[trigger] items[i]).1.len() > 0 ==> has_upc(items, items[i].1)
            || asked.contains(items[i].1)
}

/// The children of every item were asked for.
pub open spec fn children_settled(items: Seq<(Seq<char>, Seq<char>)>, asked: Seq<Seq<char>>) -> bool {
    forall|i: int| 0 <= i < items.len() ==> asked.contains(#[trigger] items[i].0)
}

/// The items, each as `(UPC, parent UPC)`, are closed under the links of
/// the active items `db`: the active parent of each item is among them, and
/// so is every active child of each of them.
pub open spec fn closed_under_links(
    items: Seq<(Seq<char>, Seq<char>)>,
    db: Seq<(Seq<char>, Seq<char>)>,
) -> bool {
    &&& forall|i: int, j: int|
        0 <= i < items.len() && 0 <= j < db.len() && (#[trigger] items[i]).1.len() > 0
            && (#[trigger] db[j]).0 == items[i].1 ==> has_upc(items, db[j].0)
    &&& forall|i: int, j: int|
        0 <= i < items.len() && 0 <= j < db.len() && (#[trigger] db[j]).1 == (
        #[trigger] items[i]).0 ==> has_upc(items, db[j].0)
}

proof fn lemma_missing_parents(items: Seq<(Seq<char>, Seq<char>)>, asked: Seq<Seq<char>>, n: nat)
    requires
        n <= items.len(),
    ensures
        missing_parents(items, asked, n).len() == 0 <==> forall|i: int|
            0 <= i < n && (#[trigger] items[i]).1.len() > 0 ==> has_upc(items, items[i].1)
                || asked.contains(items[i].1),
        forall|k: int|
            0 <= k < missing_parents(items, asked, n).len() ==> !asked.contains(
                #[trigger] missing_parents(items, asked, n)[k],
            ),
    decreases n,
{
    if n > 0 {
        lemma_missing_parents(items, asked, (n - 1) as nat);
        let acc = missing_parents(items, asked, (n - 1) as nat);
        let p = items[n - 1].1;
        if p.len() > 0 && !has_upc(items, p) && !asked.contains(p) && !acc.contains(p) {
            assert(missing_parents(items, asked, n) == acc.push(p));
            assert(missing_parents(items, asked, n).len() > 0);
            let mp = missing_parents(items, asked, n);
            assert forall|k: int| 0 <= k < mp.len() implies !asked.contains(#[trigger] mp[k]) by {
                if k < acc.len() {
                    assert(mp[k] == acc[k]);
                }
            }
        } else {
            assert(missing_parents(items, asked, n) == acc);
            if acc.len() == 0 && p.len() > 0 && !has_upc(items, p) && !asked.contains(p) {
                assert(acc.contains(p) ==> false);
            }
            if acc.len() == 0 {
                assert forall|i: int|
                    0 <= i < n && (#[trigger] items[i]).1.len() > 0 implies has_upc(
                    items,
                    items[i].1,
                ) || asked.contains(items[i].1) by {
                    if i < n - 1 {
                    } else {
                        assert(i == n - 1);
                    }
                }
            }
        }
    }
}

proof fn lemma_unasked_upcs(items: Seq<(Seq<char>, Seq<char>)>, asked: Seq<Seq<char>>, n: nat)
    requires
        n <= items.len(),
    ensures
        unasked_upcs(items, asked, n).len() == 0 <==> forall|i: int|
            0 <= i < n ==> asked.contains(#[trigger] items[i].0),
        forall|k: int|
            0 <= k < unasked_upcs(items, asked, n).len() ==> !asked.contains(
                #[trigger] unasked_upcs(items, asked, n)[k],
            ),
    decreases n,
{
    if n > 0 {
        lemma_unasked_upcs(items, asked, (n - 1) as nat);
        let acc = unasked_upcs(items, asked, (n - 1) as nat);
        let u = items[n - 1].0;
        if !asked.contains(u) && !acc.contains(u) {
            assert(unasked_upcs(items, asked, n) == acc.push(u));
            assert(unasked_upcs(items, asked, n).len() > 0);
            let ua = unasked_upcs(items, asked, n);
            assert forall|k: int| 0 <= k < ua.len() implies !asked.contains(#[trigger] ua[k]) by {
                if k < acc.len() {
                    assert(ua[k] == acc[k]);
                }
            }
        } else {
            assert(unasked_upcs(items, asked, n) == acc);
            if acc.len() == 0 {
                assert forall|i: int| 0 <= i < n implies asked.contains(#[trigger] items[i].0) by {
                    if i == n - 1 {
                        if !asked.contains(u) {
                            assert(acc.contains(u));
                        }
                    }
                }
            }
        }
    }
}

fn contains_string(v: &Vec<String>, s: &String) -> (b: bool)
    ensures
        b == string_views(v@).contains(s@),
{
    let mut i: usize = 0;
    while i < v.len()
        invariant
            i <= v.len(),
            forall|k: int| 0 <= k < i ==> v@[k]@ != s@,
        decreases v.len() - i,
    {
        if v[i] == *s {
            assert(string_views(v@)[i as int] == s@);
            return true;
        }
        i = i + 1;
    }
    assert forall|k: int| 0 <= k < string_views(v@).len() implies string_views(v@)[k] != s@ by {
        assert(string_views(v@)[k] == v@[k]@);
    }
    false
}

fn has_item_upc(items: &Vec<ItemKey>, u: &String) -> (b: bool)
    ensures
        b == has_upc(key_views(items@), u@),
{
    let mut i: usize = 0;
    while i < items.len()
        invariant
            i <= items.len(),
            forall|k: int| 0 <= k < i ==> items@[k].upc@ != u@,
        decreases items.len() - i,
    {
        if items[i].upc == *u {
            assert(key_views(items@)[i as int].0 == u@);
            return true;
        }
        i = i + 1;
    }
    assert forall|k: int| 0 <= k < key_views(items@).len() implies (
    #[trigger] key_views(items@)[k]).0 != u@ by {
        assert(key_views(items@)[k].0 == items@[k].upc@);
    }
    false
}

/// The parents still to fetch (see [`missing_parents`]).
pub fn parents_to_fetch(items: &Vec<ItemKey>, asked: &Vec<String>) -> (r: Vec<String>)
    ensures
        string_views(r@) == missing_parents(key_views(items@), string_views(asked@), items@.len()),
{
    let ghost kv = key_views(items@);
    let ghost av = string_views(asked@);
    let mut r: Vec<String> = Vec::new();
    let mut i: usize = 0;
    while i < items.len()
        invariant
            i <= items.len(),
            kv == key_views(items@),
            av == string_views(asked@),
            string_views(r@) == missing_parents(kv, av, i as nat),
        decreases items.len() - i,
    {
        let p = &items[i].parent_upc;
        assert(kv[i as int].1 == p@);
        if !p.as_str().is_empty() && !has_item_upc(items, p) && !contains_string(asked, p)
            && !contains_string(&r, p) {
            let ghost before = string_views(r@);
            r.push(p.clone());
            assert(string_views(r@) =~= before.push(p@));
        }
        i = i + 1;
    }
    r
}

/// The items whose children are still to fetch (see [`unasked_upcs`]).
pub fn children_to_fetch(items: &Vec<ItemKey>, asked: &Vec<String>) -> (r: Vec<String>)
    ensures
        string_views(r@) == unasked_upcs(key_views(items@), string_views(asked@), items@.len()),
{
    let ghost kv = key_views(items@);
    let ghost av = string_views(asked@);
    let mut r: Vec<String> = Vec::new();
    let mut i: usize = 0;
    while i < items.len()
        invariant
            i <= items.len(),
            kv == key_views(items@),
            av == string_views(asked@),
            string_views(r@) == unasked_upcs(kv, av, i as nat),
        decreases items.len() - i,
    {
        let u = &items[i].upc;
        assert(kv[i as int].0 == u@);
        if !contains_string(asked, u) && !contains_string(&r, u) {
            let ghost before = string_views(r@);
            r.push(u.clone());
            assert(string_views(r@) =~= before.push(u@));
        }
        i = i + 1;
    }
    r
}

/// The next step of a search's expansion.
pub enum ExpansionStep {
    /// Fetch the items with these UPCs (parents not yet among the items)
    /// with this query.
    FetchParents { upcs: Vec<String>, query: String },
    /// Fetch the children of the items with these UPCs with this query.
    FetchChildren { upcs: Vec<String>, query: String },
    /// The items are settled: nothing is left to ask for.
    Done,
}

/// The next step of the expansion of the search result `items`, given the
/// parent UPCs and the UPCs whose children were already asked for: first
/// the missing parents, then the children of every item, until nothing is
/// left to ask.
pub fn next_expansion(items: &Vec<ItemKey>, asked_parents: &Vec<String>, asked_children: &Vec<String>) -> (r: ExpansionStep)
    ensures
        ({
            let kv = key_views(items@);
            let mp = missing_parents(kv, string_views(asked_parents@), items@.len());
            let uc = unasked_upcs(kv, string_views(asked_children@), items@.len());
            &&& mp.len() > 0 ==> (r matches ExpansionStep::FetchParents { upcs, query }
                && string_views(upcs@) == mp && query@ == items_by_upc_sql(mp))
            &&& mp.len() == 0 && uc.len() > 0 ==> (r matches ExpansionStep::FetchChildren {
                upcs,
                query,
            } && string_views(upcs@) == uc && query@ == children_sql(uc))
            &&& (r is Done <==> parents_settled(kv, string_views(asked_parents@))
                && children_settled(kv, string_views(asked_children@)))
        }),
{
    let ghost kv = key_views(items@);
    proof {
        lemma_missing_parents(kv, string_views(asked_parents@), items@.len());
        lemma_unasked_upcs(kv, string_views(asked_children@), items@.len());
    }
    let parents = parents_to_fetch(items, asked_parents);
    match missing_parents_query(&parents) {
        Some(query) => {
            return ExpansionStep::FetchParents { upcs: parents, query };
        },
        None => {},
    }
    let children = children_to_fetch(items, asked_children);
    match children_query(&children) {
        Some(query) => ExpansionStep::FetchChildren { upcs: children, query },
        None => ExpansionStep::Done,
    }
}

/// When the expansion is done, the items are closed under parent and child
/// links: given the active items `db`, of which the answers held every item
/// with an asked-for UPC and every child of an asked-for parent, the parent
/// of each item is among the items, and so is every child of each item.
pub proof fn law_expansion_closed(
    items: Seq<(Seq<char>, Seq<char>)>,
    asked_parents: Seq<Seq<char>>,
    asked_children: Seq<Seq<char>>,
    db: Seq<(Seq<char>, Seq<char>)>,
)
    requires
        parents_settled(items, asked_parents),
        children_settled(items, asked_children),
        forall|j: int|
            0 <= j < db.len() && asked_parents.contains(#[trigger] db[j].0) ==> has_upc(items, db[j].0),
        forall|j: int|
            0 <= j < db.len() && asked_children.contains(#[trigger] db[j].1) ==> has_upc(items, db[j].0),
    ensures
        closed_under_links(items, db),
{
    assert forall|i: int, j: int|
        0 <= i < items.len() && 0 <= j < db.len() && (#[trigger] items[i]).1.len() > 0
            && (#[trigger] db[j]).0 == items[i].1 implies has_upc(items, db[j].0) by {
        if !has_upc(items, items[i].1) {
            assert(asked_parents.contains(db[j].0));
        }
    }
    assert forall|i: int, j: int|
        0 <= i < items.len() && 0 <= j < db.len() && (#[trigger] db[j]).1 == (
        #[trigger] items[i]).0 implies has_upc(items, db[j].0) by {
        assert(asked_children.contains(items[i].0));
    }
}

/// The indices of the fetched items to add: those whose UPC is neither
/// found already nor an earlier fetched one, in order.
pub open spec fn items_to_add(present: Seq<Seq<char>>, fetched: Seq<Seq<char>>, n: nat) -> Seq<
    nat,
>
    decreases n,
{
    if n == 0 {
        Seq::empty()
    } else {
        let acc = items_to_add(present, fetched, (n - 1) as nat);
        let u = fetched[n - 1];
        if !present.contains(u) && !(exists|k: int|
            0 <= k < n - 1 && #[trigger] fetched[k] == u) {
            acc.push((n - 1) as nat)
        } else {
            acc
        }
    }
}

/// Which fetched items join the result (see [`items_to_add`]).
pub fn new_item_indices(present: &Vec<String>, fetched: &Vec<String>) -> (r: Vec<usize>)
    ensures
        r@.len() == items_to_add(string_views(present@), string_views(fetched@), fetched@.len()).len(),
        forall|i: int|
            0 <= i < r@.len() ==> r@[i] as nat == items_to_add(
                string_views(present@),
                string_views(fetched@),
                fetched@.len(),
            )[i],
{
    let ghost ps = string_views(present@);
    let ghost fs = string_views(fetched@);
    let mut r: Vec<usize> = Vec::new();
    let mut i: usize = 0;
    while i < fetched.len()
        invariant
            i <= fetched.len(),
            ps == string_views(present@),
            fs == string_views(fetched@),
            r@.len() == items_to_add(ps, fs, i as nat).len(),
            forall|k: int|
                0 <= k < r@.len() ==> r@[k] as nat == items_to_add(ps, fs, i as nat)[k],
        decreases fetched.len() - i,
    {
        let u = &fetched[i];
        assert(fs[i as int] == u@);
        let mut seen = false;
        let mut j: usize = 0;
        while j < i
            invariant
                j <= i < fetched.len(),
                fs == string_views(fetched@),
                u@ == fs[i as int],
                seen == (exists|k: int| 0 <= k < j && #[trigger] fs[k] == fs[i as int]),
            decreases i - j,
        {
            assert(fs[j as int] == fetched@[j as int]@);
            assert(fs[i as int] == fetched@[i as int]@);
            let ghost before = seen;
            if fetched[j] == *u {
                seen = true;
            }
            j = j + 1;
            proof {
                let jj = (j - 1) as int;
                if fs[jj] == fs[i as int] {
                    assert(0 <= jj < j && fs[jj] == fs[i as int]);
                } else {
                    assert(seen == before);
                    if exists|k: int| 0 <= k < j && #[trigger] fs[k] == fs[i as int] {
                        let k = choose|k: int| 0 <= k < j && #[trigger] fs[k] == fs[i as int];
                        assert(k < jj);
                    }
                }
            }
        }
        if !contains_string(present, u) && !seen {
            r.push(i);
        }
        i = i + 1;
    }
    r
}

proof fn lemma_items_to_add(present: Seq<Seq<char>>, fetched: Seq<Seq<char>>, n: nat)
    requires
        n <= fetched.len(),
    ensures
        forall|i: int|
            0 <= i < items_to_add(present, fetched, n).len() ==> {
                let k = #[trigger] items_to_add(present, fetched, n)[i];
                &&& k < n
                &&& !present.contains(fetched[k as int])
                &&& forall|m: int| 0 <= m < k ==> fetched[m] != fetched[k as int]
            },
        forall|i: int, j: int|
            0 <= i < j < items_to_add(present, fetched, n).len() ==> items_to_add(
                present,
                fetched,
                n,
            )[i] < items_to_add(present, fetched, n)[j],
    decreases n,
{
    if n > 0 {
        lemma_items_to_add(present, fetched, (n - 1) as nat);
        let acc = items_to_add(present, fetched, (n - 1) as nat);
        let t = items_to_add(present, fetched, n);
        let u = fetched[n - 1];
        if !present.contains(u) && !(exists|k: int| 0 <= k < n - 1 && #[trigger] fetched[k] == u) {
            assert(t == acc.push((n - 1) as nat));
            assert forall|i: int| 0 <= i < t.len() implies {
                let k = #[trigger] t[i];
                &&& k < n
                &&& !present.contains(fetched[k as int])
                &&& forall|m: int| 0 <= m < k ==> fetched[m] != fetched[k as int]
            } by {
                if i < acc.len() {
                    assert(t[i] == acc[i]);
                } else {
                    assert(t[i] == n - 1);
                    assert forall|m: int| 0 <= m < n - 1 implies #[trigger] fetched[m] != fetched[n - 1] by {
                        if fetched[m] == u {
                            assert(0 <= m < n - 1 && fetched[m] == u);
                        }
                    }
                }
            }
            assert forall|i: int, j: int| 0 <= i < j < t.len() implies t[i] < t[j] by {
                if j < acc.len() {
                    assert(t[i] == acc[i] && t[j] == acc[j]);
                } else {
                    assert(t[i] == acc[i]);
                    assert(acc[i] < n - 1);
                }
            }
        } else {
            assert(t == acc);
        }
    }
}

/// The items a search adds are new: none has the UPC of an item already
/// found, and no two have the same UPC.
pub proof fn law_added_items_are_new(present: Seq<Seq<char>>, fetched: Seq<Seq<char>>)
    ensures
        forall|i: int|
            0 <= i < items_to_add(present, fetched, fetched.len()).len() ==> !present.contains(
                fetched[#[trigger] items_to_add(present, fetched, fetched.len())[i] as int],
            ),
        forall|i: int, j: int|
            0 <= i < j < items_to_add(present, fetched, fetched.len()).len() ==> fetched[items_to_add(
                present,
                fetched,
                fetched.len(),
            )[i] as int] != fetched[items_to_add(present, fetched, fetched.len())[j] as int],
{
    let t = items_to_add(present, fetched, fetched.len());
    lemma_items_to_add(present, fetched, fetched.len());
    assert forall|i: int, j: int| 0 <= i < j < t.len() implies fetched[t[i] as int]
        != fetched[t[j] as int] by {
        let ki = t[i];
        let kj = t[j];
        assert(ki < kj);
        assert(forall|m: int| 0 <= m < kj ==> fetched[m] != fetched[kj as int]);
    }
}

/// The parents a search fetches are needed: each is the parent of a found
/// item, is neither found nor asked for before, and is asked for once.
pub proof fn law_missing_parents_needed(
    items: Seq<(Seq<char>, Seq<char>)>,
    asked: Seq<Seq<char>>,
    n: nat,
)
    requires
        n <= items.len(),
    ensures
        forall|i: int|
            0 <= i < missing_parents(items, asked, n).len() ==> #[trigger] missing_parents(
                items,
                asked,
                n,
            )[i].len() > 0 && !has_upc(items, missing_parents(items, asked, n)[i])
                && !asked.contains(missing_parents(items, asked, n)[i]) && exists|k: int|
                0 <= k < n && items[k].1 == missing_parents(items, asked, n)[i],
        forall|i: int, j: int|
            0 <= i < j < missing_parents(items, asked, n).len() ==> missing_parents(
                items,
                asked,
                n,
            )[i] != missing_parents(items, asked, n)[j],
    decreases n,
{
    if n > 0 {
        law_missing_parents_needed(items, asked, (n - 1) as nat);
        let acc = missing_parents(items, asked, (n - 1) as nat);
        let mp = missing_parents(items, asked, n);
        let p = items[n - 1].1;
        if p.len() > 0 && !has_upc(items, p) && !asked.contains(p) && !acc.contains(p) {
            assert(mp == acc.push(p));
            assert forall|i: int| 0 <= i < mp.len() implies #[trigger] mp[i].len() > 0 && !has_upc(
                items,
                mp[i],
            ) && !asked.contains(mp[i]) && exists|k: int| 0 <= k < n && items[k].1 == mp[i] by {
                if i < acc.len() {
                    assert(mp[i] == acc[i]);
                    assert(acc[i].len() > 0);
                    let k = choose|k: int| 0 <= k < n - 1 && items[k].1 == acc[i];
                    assert(0 <= k < n && items[k].1 == mp[i]);
                } else {
                    assert(items[n - 1].1 == mp[i]);
                }
            }
            assert forall|i: int, j: int| 0 <= i < j < mp.len() implies mp[i] != mp[j] by {
                if j == mp.len() - 1 {
                    assert(mp[i] == acc[i]);
                    if mp[i] == mp[j] {
                        assert(acc.contains(p));
                    }
                } else {
                    assert(mp[i] == acc[i] && mp[j] == acc[j]);
                }
            }
        } else {
            assert forall|i: int| 0 <= i < mp.len() implies #[trigger] mp[i].len() > 0 && !has_upc(
                items,
                mp[i],
            ) && !asked.contains(mp[i]) && exists|k: int| 0 <= k < n && items[k].1 == mp[i] by {
                assert(mp == acc);
                assert(acc[i].len() > 0);
                let k = choose|k: int| 0 <= k < n - 1 && items[k].1 == acc[i];
                assert(0 <= k < n && items[k].1 == mp[i]);
            }
        }
    }
}

pub open spec fn expansion_columns() -> Seq<char> {
    "SELECT i.UPC, i.[Description], i.[Department], i.[Supplier],\n    (SELECT TOP 1 CAST((m.QtyOnHand + m.Quantity) AS FLOAT)\n     FROM [ItemMovement] m\n     WHERE m.UPC = i.UPC ORDER BY m.ID Desc) AS StockOnHand,\n    ISNULL(i.ParentUPC, '') AS ParentUPC,\n    ISNULL(i.SellingQty, 0) AS SellingQty\nFROM Items i\nWHERE i.InActive = '0'\n  AND i."@
}

/// The active items with the given UPCs (the missing parents).
pub open spec fn items_by_upc_sql(upcs: Seq<Seq<char>>) -> Seq<char> {
    expansion_columns() + "UPC IN ("@ + quoted_list(upcs) + ")\nORDER BY i.[Description]"@
}

/// The active items whose parent is one of the given UPCs (the children).
pub open spec fn children_sql(parents: Seq<Seq<char>>) -> Seq<char> {
    expansion_columns() + "ParentUPC IN ("@ + quoted_list(parents) + ")\nORDER BY i.[Description]"@
}

fn push_quoted_list(out: &mut Vec<char>, v: &Vec<String>)
    ensures
        final(out)@ == old(out)@ + quoted_list(string_views(v@)),
{
    let ghost cs = string_views(v@);
    let ghost start = out@;
    let mut i: usize = 0;
    while i < v.len()
        invariant
            i <= v.len(),
            cs == string_views(v@),
            out@ == start + quoted_list(cs.take(i as int)),
        decreases v.len() - i,
    {
        if i > 0 {
            push_str(out, ",");
        }
        push_str(out, "'");
        let e = crate::sql::escape_sql(v[i].as_str());
        push_str(out, e.as_str());
        push_str(out, "'");
        proof {
            let t = cs.take(i + 1);
            assert(t.drop_last() =~= cs.take(i as int));
            assert(t.last() == v@[i as int]@);
            if i == 0 {
                assert(t =~= seq![v@[0]@]);
                assert(cs.take(0) =~= Seq::<Seq<char>>::empty());
            }
        }
        assert(out@ =~= start + quoted_list(cs.take(i + 1)));
        i = i + 1;
    }
    assert(cs.take(v.len() as int) =~= cs);
}

fn push_expansion_columns(out: &mut Vec<char>)
    ensures
        final(out)@ == old(out)@ + expansion_columns(),
{
    push_str(
        out,
        "SELECT i.UPC, i.[Description], i.[Department], i.[Supplier],\n    (SELECT TOP 1 CAST((m.QtyOnHand + m.Quantity) AS FLOAT)\n     FROM [ItemMovement] m\n     WHERE m.UPC = i.UPC ORDER BY m.ID Desc) AS StockOnHand,\n    ISNULL(i.ParentUPC, '') AS ParentUPC,\n    ISNULL(i.SellingQty, 0) AS SellingQty\nFROM Items i\nWHERE i.InActive = '0'\n  AND i.",
    );
}

/// The query for the missing parents; none when there are none.
pub fn missing_parents_query(upcs: &Vec<String>) -> (r: Option<String>)
    ensures
        upcs@.len() == 0 <==> r is None,
        r matches Some(q) ==> q@ == items_by_upc_sql(string_views(upcs@)),
{
    if upcs.len() == 0 {
        return None;
    }
    let mut out: Vec<char> = Vec::new();
    push_expansion_columns(&mut out);
    push_str(&mut out, "UPC IN (");
    push_quoted_list(&mut out, upcs);
    push_str(&mut out, ")\nORDER BY i.[Description]");
    assert(out@ =~= items_by_upc_sql(string_views(upcs@)));
    Some(string_of(&out))
}

/// The query for the children of the given parents; none when there are
/// none.
pub fn children_query(parents: &Vec<String>) -> (r: Option<String>)
    ensures
        parents@.len() == 0 <==> r is None,
        r matches Some(q) ==> q@ == children_sql(string_views(parents@)),
{
    if parents.len() == 0 {
        return None;
    }
    let mut out: Vec<char> = Vec::new();
    push_expansion_columns(&mut out);
    push_str(&mut out, "ParentUPC IN (");
    push_quoted_list(&mut out, parents);
    push_str(&mut out, ")\nORDER BY i.[Description]");
    assert(out@ =~= children_sql(string_views(parents@)));
    Some(string_of(&out))
}

} // verus!
