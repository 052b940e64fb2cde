use vstd::prelude::*;
use crate::json::{JsonValue, field, field_of, u64_of, i64_of, str_of, array_of};

verus! {

/// A pass as a listing names it, before its price is known.
pub struct PassEntry {
    pub id: u64,
    pub name: String,
}

/// One page of a pass listing.
pub struct PassPage {
    pub entries: Vec<PassEntry>,
    pub next_cursor: Option<String>,
}

/// One page of a user's public games.
pub struct GamesPage {
    pub game_ids: Vec<u64>,
    pub next_cursor: Option<String>,
}

/// What an asset's detail record says of its price and creator.
pub struct AssetDetail {
    pub price: Option<i64>,
    pub creator_id: Option<u64>,
}

/// One result of the catalog search.
pub struct CatalogItem {
    pub id: u64,
    pub name: String,
    pub asset_type: u64,
    pub price: Option<i64>,
}

/// The elements under `data`, if the document has such an array.
pub open spec fn data_of(v: JsonValue) -> Option<Seq<JsonValue>> {
    array_of(field(v, "data"@))
}

/// The continuation cursor of a page: a non-empty `nextPageCursor` string.
pub open spec fn cursor_of(v: JsonValue) -> Option<Seq<char>> {
    match str_of(field(v, "nextPageCursor"@)) {
        Some(c) => if c.len() > 0 {
            Some(c)
        } else {
            None
        },
        None => None,
    }
}

/// A listed name, or `GamePass` where the listing carries none.
pub open spec fn name_of(v: JsonValue) -> Seq<char> {
    match str_of(field(v, "name"@)) {
        Some(s) => s,
        None => "GamePass"@,
    }
}

/// The ids of the first `n` elements that carry an integer `id`, in order.
pub open spec fn ids_upto(items: Seq<JsonValue>, n: int) -> Seq<u64>
    decreases n,
{
    if n <= 0 {
        Seq::empty()
    } else {
        let prev = ids_upto(items, n - 1);
        match u64_of(field(items[n - 1], "id"@)) {
            Some(id) => prev.push(id),
            None => prev,
        }
    }
}

/// The (id, name) pairs of the first `n` elements that carry an integer `id`.
pub open spec fn entries_upto(items: Seq<JsonValue>, n: int) -> Seq<(u64, Seq<char>)>
    decreases n,
{
    if n <= 0 {
        Seq::empty()
    } else {
        let prev = entries_upto(items, n - 1);
        match u64_of(field(items[n - 1], "id"@)) {
            Some(id) => prev.push((id, name_of(items[n - 1]))),
            None => prev,
        }
    }
}

/// The (id, name) view of decoded entries.
pub open spec fn entry_views(es: Seq<PassEntry>) -> Seq<(u64, Seq<char>)> {
    es.map_values(|e: PassEntry| (e.id, e.name@))
}

/// The optional cursor as characters.
pub open spec fn opt_chars(c: Option<String>) -> Option<Seq<char>> {
    match c {
        Some(s) => Some(s@),
        None => None,
    }
}

/// The price of a detail record: `PriceInRobux`, else `Price`.
pub open spec fn detail_price_of(v: JsonValue) -> Option<i64> {
    match i64_of(field(v, "PriceInRobux"@)) {
        Some(p) => Some(p),
        None => i64_of(field(v, "Price"@)),
    }
}

/// The creator id of a detail record, under `Creator.Id`.
pub open spec fn detail_creator_of(v: JsonValue) -> Option<u64> {
    u64_of(field_of(field(v, "Creator"@), "Id"@))
}

/// The catalog item that an element describes, if it has an integer `id`.
pub open spec fn catalog_item_of(v: JsonValue) -> Option<(u64, Seq<char>, u64, Option<i64>)> {
    match u64_of(field(v, "id"@)) {
        Some(id) => Some(
            (
                id,
                name_of(v),
                match u64_of(field_of(field(v, "assetType"@), "id"@)) {
                    Some(t) => t,
                    None => 0,
                },
                i64_of(field(v, "price"@)),
            ),
        ),
        None => None,
    }
}

/// The catalog items of the first `n` elements.
pub open spec fn catalog_upto(items: Seq<JsonValue>, n: int) -> Seq<(u64, Seq<char>, u64, Option<i64>)>
    decreases n,
{
    if n <= 0 {
        Seq::empty()
    } else {
        let prev = catalog_upto(items, n - 1);
        match catalog_item_of(items[n - 1]) {
            Some(it) => prev.push(it),
            None => prev,
        }
    }
}

/// The view of decoded catalog items.
pub open spec fn catalog_views(cs: Seq<CatalogItem>) -> Seq<(u64, Seq<char>, u64, Option<i64>)> {
    cs.map_values(|c: CatalogItem| (c.id, c.name@, c.asset_type, c.price))
}

/// The `nextPageCursor` of a page, when it is a non-empty string.
pub fn decode_cursor(v: &JsonValue) -> (r: Option<String>)
    ensures
        opt_chars(r) == cursor_of(*v),
{
    match v.get("nextPageCursor") {
        Some(c) => match c.as_str() {
            Some(s) => if s.unicode_len() > 0 {
                Some(String::from_str(s))
            } else {
                None
            },
            None => None,
        },
        None => None,
    }
}

/// The `name` of a listed element, or the default name.
pub fn decode_name(v: &JsonValue) -> (r: String)
    ensures
        r@ == name_of(*v),
{
    match v.get("name") {
        Some(n) => match n.as_str() {
            Some(s) => String::from_str(s),
            None => String::from_str("GamePass"),
        },
        None => String::from_str("GamePass"),
    }
}

/// Decodes a page of the user's games: the `id` of each element under `data`
/// that has one, and the continuation cursor. `None` when `data` is no array.
pub fn decode_games_page(v: &JsonValue) -> (r: Option<GamesPage>)
    ensures
        match r {
            Some(page) => data_of(*v) is Some && page.game_ids@ == ids_upto(
                data_of(*v).unwrap(),
                data_of(*v).unwrap().len() as int,
            ) && opt_chars(page.next_cursor) == cursor_of(*v),
            None => data_of(*v) is None,
        },
{
    let items = match v.get("data") {
        Some(d) => match d.as_array() {
            Some(a) => a,
            None => return None,
        },
        None => return None,
    };
    let mut ids: Vec<u64> = Vec::new();
    let mut i: usize = 0;
    while i < items.len()
        invariant
            i <= items@.len(),
            ids@ == ids_upto(items@, i as int),
        decreases items@.len() - i,
    {
        match items[i].get("id") {
            Some(x) => match x.as_u64() {
                Some(id) => ids.push(id),
                None => {},
            },
            None => {},
        }
        i = i + 1;
    }
    Some(GamesPage { game_ids: ids, next_cursor: decode_cursor(v) })
}

/// Decodes a page of a pass listing: each element under `data` with an
/// integer `id`, with its name, and the continuation cursor. `None` when
/// `data` is no array.
pub fn decode_pass_page(v: &JsonValue) -> (r: Option<PassPage>)
    ensures
        match r {
            Some(page) => data_of(*v) is Some && entry_views(page.entries@) == entries_upto(
                data_of(*v).unwrap(),
                data_of(*v).unwrap().len() as int,
            ) && opt_chars(page.next_cursor) == cursor_of(*v),
            None => data_of(*v) is None,
        },
{
    let items = match v.get("data") {
        Some(d) => match d.as_array() {
            Some(a) => a,
            None => return None,
        },
        None => return None,
    };
    let mut entries: Vec<PassEntry> = Vec::new();
    let mut i: usize = 0;
    while i < items.len()
        invariant
            i <= items@.len(),
            entry_views(entries@) == entries_upto(items@, i as int),
        decreases items@.len() - i,
    {
        match items[i].get("id") {
            Some(x) => match x.as_u64() {
                Some(id) => {
                    let name = decode_name(&items[i]);
                    entries.push(PassEntry { id, name });
                    assert(entry_views(entries@) =~= entry_views(entries@.drop_last()).push(
                        (id, name_of(items@[i as int])),
                    ));
                },
                None => {},
            },
            None => {},
        }
        i = i + 1;
    }
    Some(PassPage { entries, next_cursor: decode_cursor(v) })
}

/// Decodes an asset's detail record: its price and its creator id.
pub fn decode_detail(v: &JsonValue) -> (r: AssetDetail)
    ensures
        r.price == detail_price_of(*v),
        r.creator_id == detail_creator_of(*v),
{
    let price = match v.get("PriceInRobux") {
        Some(p) => p.as_i64(),
        None => None,
    };
    let price = match price {
        Some(p) => Some(p),
        None => match v.get("Price") {
            Some(p) => p.as_i64(),
            None => None,
        },
    };
    let creator_id = match v.get("Creator") {
        Some(c) => match c.get("Id") {
            Some(id) => id.as_u64(),
            None => None,
        },
        None => None,
    };
    AssetDetail { price, creator_id }
}

/// Decodes one element of the catalog search, if it has an integer `id`.
pub fn decode_catalog_item(v: &JsonValue) -> (r: Option<CatalogItem>)
    ensures
        match r {
            Some(c) => catalog_item_of(*v) == Some((c.id, c.name@, c.asset_type, c.price)),
            None => catalog_item_of(*v) is None,
        },
{
    let id = match v.get("id") {
        Some(x) => match x.as_u64() {
            Some(id) => id,
            None => return None,
        },
        None => return None,
    };
    let asset_type = match v.get("assetType") {
        Some(t) => match t.get("id") {
            Some(x) => match x.as_u64() {
                Some(t) => t,
                None => 0,
            },
            None => 0,
        },
        None => 0,
    };
    let price = match v.get("price") {
        Some(p) => p.as_i64(),
        None => None,
    };
    Some(CatalogItem { id, name: decode_name(v), asset_type, price })
}

/// Decodes the catalog search: the items under `data` that have an integer
/// `id`. `None` when `data` is no array.
pub fn decode_catalog(v: &JsonValue) -> (r: Option<Vec<CatalogItem>>)
    ensures
        match r {
            Some(cs) => data_of(*v) is Some && catalog_views(cs@) == catalog_upto(
                data_of(*v).unwrap(),
                data_of(*v).unwrap().len() as int,
            ),
            None => data_of(*v) is None,
        },
{
    let items = match v.get("data") {
        Some(d) => match d.as_array() {
            Some(a) => a,
            None => return None,
        },
        None => return None,
    };
    let mut out: Vec<CatalogItem> = Vec::new();
    let mut i: usize = 0;
    while i < items.len()
        invariant
            i <= items@.len(),
            catalog_views(out@) == catalog_upto(items@, i as int),
        decreases items@.len() - i,
    {
        match decode_catalog_item(&items[i]) {
            Some(c) => {
                let ghost cv = (c.id, c.name@, c.asset_type, c.price);
                out.push(c);
                assert(catalog_views(out@) =~= catalog_views(out@.drop_last()).push(cv));
            },
            None => {},
        }
        i = i + 1;
    }
    Some(out)
}

} // verus!
