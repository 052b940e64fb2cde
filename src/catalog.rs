use vstd::prelude::*;
use crate::decode::{CatalogItem, catalog_views};
use crate::pass::{Gamepass, views, well_formed, offered, offer, contains_id, price_ok};

verus! {

/// The upstream asset-type code of a gamepass.
pub const PASS_ASSET_TYPE: u64 = 46;

/// The passes after the first `n` catalog items have been offered in turn;
/// items of another asset type are passed over. A catalog item names no
/// creator: the search was already made by creator.
pub open spec fn catalog_fold(
    ps: Seq<(u64, Seq<char>, i64)>,
    user_id: u64,
    items: Seq<(u64, Seq<char>, u64, Option<i64>)>,
    n: int,
) -> Seq<(u64, Seq<char>, i64)>
    decreases n,
{
    if n <= 0 {
        ps
    } else {
        let prev = catalog_fold(ps, user_id, items, n - 1);
        let it = items[n - 1];
        if it.2 == PASS_ASSET_TYPE {
            offered(prev, user_id, it.0, it.1, it.3, None)
        } else {
            prev
        }
    }
}

/// Offers each catalog item of the pass asset type to `ps`, in order.
pub fn offer_catalog(ps: &mut Vec<Gamepass>, user_id: u64, items: &Vec<CatalogItem>)
    requires
        well_formed(views(old(ps)@)),
    ensures
        views(final(ps)@) == catalog_fold(
            views(old(ps)@),
            user_id,
            catalog_views(items@),
            items@.len() as int,
        ),
        well_formed(views(final(ps)@)),
{
    let ghost start = views(ps@);
    let mut i: usize = 0;
    while i < items.len()
        invariant
            i <= items@.len(),
            well_formed(views(ps@)),
            views(ps@) == catalog_fold(start, user_id, catalog_views(items@), i as int),
        decreases items@.len() - i,
    {
        let it = &items[i];
        if it.asset_type == PASS_ASSET_TYPE {
            offer(ps, user_id, it.id, it.name.clone(), it.price, None);
        }
        i = i + 1;
    }
}

/// The passes that a catalog listing yields on its own: every item of the
/// pass asset type with a positive price, the first of each id, in order.
pub fn select_catalog(user_id: u64, items: &Vec<CatalogItem>) -> (r: Vec<Gamepass>)
    ensures
        views(r@) == catalog_fold(Seq::empty(), user_id, catalog_views(items@), items@.len() as int),
        well_formed(views(r@)),
{
    let mut r: Vec<Gamepass> = Vec::new();
    assert(views(r@) =~= Seq::empty());
    offer_catalog(&mut r, user_id, items);
    r
}

/// A catalog item that counts: of the pass asset type, with a positive price.
pub open spec fn catalog_valid(it: (u64, Seq<char>, u64, Option<i64>)) -> bool {
    it.2 == PASS_ASSET_TYPE && price_ok(it.3)
}

/// The items among the first `n` that count, as passes, in order.
pub open spec fn valid_upto(items: Seq<(u64, Seq<char>, u64, Option<i64>)>, n: int) -> Seq<
    (u64, Seq<char>, i64),
>
    decreases n,
{
    if n <= 0 {
        Seq::empty()
    } else {
        let prev = valid_upto(items, n - 1);
        let it = items[n - 1];
        if catalog_valid(it) {
            prev.push((it.0, it.1, it.3.unwrap()))
        } else {
            prev
        }
    }
}

/// When no two catalog items that count share an id, the catalog yields
/// exactly the items that count, in order: every other item is left out.
pub proof fn lemma_catalog_yields_valid_items(
    user_id: u64,
    items: Seq<(u64, Seq<char>, u64, Option<i64>)>,
)
    requires
        forall|i: int, j: int|
            0 <= i < j < items.len() && catalog_valid(#[trigger] items[i]) && catalog_valid(
                #[trigger] items[j],
            ) ==> items[i].0 != items[j].0,
    ensures
        catalog_fold(Seq::empty(), user_id, items, items.len() as int) == valid_upto(
            items,
            items.len() as int,
        ),
{
    lemma_catalog_prefix(user_id, items, items.len() as int);
}

proof fn lemma_catalog_prefix(user_id: u64, items: Seq<(u64, Seq<char>, u64, Option<i64>)>, n: int)
    requires
        0 <= n <= items.len(),
        forall|i: int, j: int|
            0 <= i < j < items.len() && catalog_valid(#[trigger] items[i]) && catalog_valid(
                #[trigger] items[j],
            ) ==> items[i].0 != items[j].0,
    ensures
        catalog_fold(Seq::empty(), user_id, items, n) == valid_upto(items, n),
        forall|k: int|
            0 <= k < valid_upto(items, n).len() ==> exists|m: int|
                0 <= m < n && catalog_valid(items[m]) && items[m].0 == #[trigger] valid_upto(
                    items,
                    n,
                )[k].0,
    decreases n,
{
    if n > 0 {
        lemma_catalog_prefix(user_id, items, n - 1);
        let prev = valid_upto(items, n - 1);
        let cur = valid_upto(items, n);
        let it = items[n - 1];
        if catalog_valid(it) {
            assert(!contains_id(prev, it.0)) by {
                if contains_id(prev, it.0) {
                    let k = choose|k: int| 0 <= k < prev.len() && prev[k].0 == it.0;
                    let m = choose|m: int|
                        0 <= m < n - 1 && catalog_valid(items[m]) && items[m].0 == #[trigger] prev[k].0;
                    assert(items[m].0 != items[n - 1].0);
                }
            }
        }
        assert forall|k: int| 0 <= k < cur.len() implies exists|m: int|
            0 <= m < n && catalog_valid(items[m]) && items[m].0 == #[trigger] cur[k].0 by {
            if k < prev.len() {
                assert(cur[k] == prev[k]);
                let m = choose|m: int|
                    0 <= m < n - 1 && catalog_valid(items[m]) && items[m].0 == #[trigger] prev[k].0;
                assert(items[m].0 == cur[k].0);
            } else {
                assert(items[n - 1].0 == cur[k].0);
            }
        }
    }
}

/// After the first `n` items were offered, each of them that is a pass with a
/// positive price is present by id.
proof fn lemma_fold_covers(
    ps: Seq<(u64, Seq<char>, i64)>,
    user_id: u64,
    items: Seq<(u64, Seq<char>, u64, Option<i64>)>,
    n: int,
)
    requires
        0 <= n <= items.len(),
    ensures
        forall|j: int|
            0 <= j < n && items[j].2 == PASS_ASSET_TYPE && price_ok(items[j].3) ==> contains_id(
                catalog_fold(ps, user_id, items, n),
                #[trigger] items[j].0,
            ),
    decreases n,
{
    if n > 0 {
        lemma_fold_covers(ps, user_id, items, n - 1);
        let prev = catalog_fold(ps, user_id, items, n - 1);
        let cur = catalog_fold(ps, user_id, items, n);
        assert forall|j: int|
            0 <= j < n && items[j].2 == PASS_ASSET_TYPE && price_ok(items[j].3) implies contains_id(
                cur,
                #[trigger] items[j].0,
            ) by {
            if j < n - 1 {
                let k = choose|k: int| 0 <= k < prev.len() && prev[k].0 == items[j].0;
                assert(cur[k] == prev[k]);
            } else if contains_id(prev, items[j].0) {
                let k = choose|k: int| 0 <= k < prev.len() && prev[k].0 == items[j].0;
                assert(cur[k] == prev[k]);
            } else {
                assert(cur[prev.len() as int].0 == items[j].0);
            }
        }
    }
}

/// Offering items that are already all accounted for changes nothing.
proof fn lemma_fold_settled(
    q: Seq<(u64, Seq<char>, i64)>,
    user_id: u64,
    items: Seq<(u64, Seq<char>, u64, Option<i64>)>,
    n: int,
)
    requires
        0 <= n <= items.len(),
        forall|j: int|
            0 <= j < n && items[j].2 == PASS_ASSET_TYPE && price_ok(items[j].3) ==> contains_id(
                q,
                #[trigger] items[j].0,
            ),
    ensures
        catalog_fold(q, user_id, items, n) == q,
    decreases n,
{
    if n > 0 {
        lemma_fold_settled(q, user_id, items, n - 1);
    }
}

/// Offering the same catalog response a second time leaves the passes as the
/// first time left them.
pub proof fn lemma_catalog_repeat_changes_nothing(
    ps: Seq<(u64, Seq<char>, i64)>,
    user_id: u64,
    items: Seq<(u64, Seq<char>, u64, Option<i64>)>,
)
    ensures
        catalog_fold(
            catalog_fold(ps, user_id, items, items.len() as int),
            user_id,
            items,
            items.len() as int,
        ) == catalog_fold(ps, user_id, items, items.len() as int),
{
    let q = catalog_fold(ps, user_id, items, items.len() as int);
    lemma_fold_covers(ps, user_id, items, items.len() as int);
    lemma_fold_settled(q, user_id, items, items.len() as int);
}

} // verus!
