use gamepass_aggregator::aggregator::{AggregationResult, Aggregator, Request, SourceKind};
use gamepass_aggregator::catalog::select_catalog;
use gamepass_aggregator::decode::{decode_catalog, decode_detail, decode_games_page, decode_pass_page};
use gamepass_aggregator::json::{str_equal, JsonValue};
use gamepass_aggregator::pass::{sort_by_price, Gamepass};

fn s(text: &str) -> JsonValue {
    JsonValue::Str(text.to_string())
}

fn obj(members: Vec<(&str, JsonValue)>) -> JsonValue {
    JsonValue::Object(members.into_iter().map(|(k, v)| (k.to_string(), v)).collect())
}

fn listing(items: Vec<JsonValue>, cursor: Option<&str>) -> JsonValue {
    let cursor = match cursor {
        Some(c) => s(c),
        None => JsonValue::Null,
    };
    obj(vec![("data", JsonValue::Array(items)), ("nextPageCursor", cursor)])
}

fn pass_entry(id: u64, name: &str) -> JsonValue {
    obj(vec![("id", JsonValue::PosInt(id)), ("name", s(name))])
}

fn detail(price: i64, creator: u64) -> JsonValue {
    let price = if price < 0 { JsonValue::NegInt(price) } else { JsonValue::PosInt(price as u64) };
    obj(vec![
        ("PriceInRobux", price),
        ("Creator", obj(vec![("Id", JsonValue::PosInt(creator))])),
    ])
}

fn catalog_item(id: u64, name: &str, asset_type: u64, price: i64) -> JsonValue {
    obj(vec![
        ("id", JsonValue::PosInt(id)),
        ("name", s(name)),
        ("assetType", obj(vec![("id", JsonValue::PosInt(asset_type))])),
        ("price", JsonValue::PosInt(price as u64)),
    ])
}

fn pass(id: u64, name: &str, price: i64) -> Gamepass {
    Gamepass { id, name: name.to_string(), price }
}

fn triples(r: &AggregationResult) -> Vec<(u64, String, i64)> {
    r.passes.iter().map(|p| (p.id, p.name.clone(), p.price)).collect()
}

/// Runs an aggregation to its end, answering each call with `answer`, and
/// returns the result together with every call that was made.
fn drive(
    user_id: u64,
    sources: Vec<SourceKind>,
    sort: bool,
    mut answer: impl FnMut(&Request) -> Option<JsonValue>,
) -> (AggregationResult, Vec<Request>) {
    let mut agg = Aggregator::new(user_id, sources);
    let mut calls = Vec::new();
    while let Some(req) = agg.next_request() {
        let body = answer(&req);
        calls.push(req);
        assert!(calls.len() < 1000);
        agg.on_response(body);
    }
    (agg.finish(sort), calls)
}

#[test]
fn user_passes_with_detail_prices() {
    let (r, _) = drive(123, vec![SourceKind::UserPasses], false, |req| match req {
        Request::UserPassesPage { user_id: 123, cursor: None } => {
            Some(listing(vec![pass_entry(1, "Sword"), pass_entry(2, "Shield")], None))
        }
        Request::AssetDetail { pass_id: 1 } => Some(detail(50, 123)),
        Request::AssetDetail { pass_id: 2 } => Some(detail(0, 123)),
        _ => None,
    });
    assert!(r.ok);
    assert_eq!(r.user_id, 123);
    assert_eq!(r.count, 1);
    assert_eq!(triples(&r), vec![(1, "Sword".to_string(), 50)]);
}

#[test]
fn games_listing_follows_every_cursor() {
    let (r, calls) = drive(7, vec![SourceKind::PublicGames], false, |req| match req {
        Request::GamesPage { cursor: None, .. } => {
            Some(listing(vec![obj(vec![("id", JsonValue::PosInt(10))])], Some("A")))
        }
        Request::GamesPage { cursor: Some(c), .. } if c == "A" => {
            Some(listing(vec![obj(vec![("id", JsonValue::PosInt(11))])], Some("B")))
        }
        Request::GamesPage { cursor: Some(c), .. } if c == "B" => {
            Some(listing(vec![obj(vec![("id", JsonValue::PosInt(12))])], None))
        }
        Request::GamePasses { universe_id } => {
            Some(listing(vec![pass_entry(100 + universe_id, "P")], None))
        }
        Request::AssetDetail { .. } => Some(detail(5, 7)),
        _ => None,
    });
    let pages = calls.iter().filter(|c| matches!(c, Request::GamesPage { .. })).count();
    assert_eq!(pages, 3);
    let games: Vec<u64> = calls
        .iter()
        .filter_map(|c| match c {
            Request::GamePasses { universe_id } => Some(*universe_id),
            _ => None,
        })
        .collect();
    assert_eq!(games, vec![10, 11, 12]);
    assert_eq!(r.count, 3);
    let ids: Vec<u64> = r.passes.iter().map(|p| p.id).collect();
    assert_eq!(ids, vec![110, 111, 112]);
}

#[test]
fn creator_mismatch_is_excluded() {
    let (r, _) = drive(5, vec![SourceKind::UserPasses], false, |req| match req {
        Request::UserPassesPage { .. } => {
            Some(listing(vec![pass_entry(1, "Mine"), pass_entry(2, "Theirs")], None))
        }
        Request::AssetDetail { pass_id: 1 } => Some(detail(10, 5)),
        Request::AssetDetail { pass_id: 2 } => Some(detail(10, 6)),
        _ => None,
    });
    assert_eq!(triples(&r), vec![(1, "Mine".to_string(), 10)]);
}

#[test]
fn catalog_items_are_the_result_when_first() {
    let sources = vec![SourceKind::Catalog, SourceKind::PublicGames, SourceKind::UserPasses];
    let (r, calls) = drive(9, sources, false, |req| match req {
        Request::CatalogSearch { user_id: 9 } => Some(listing(
            vec![catalog_item(1, "A", 46, 10), catalog_item(2, "B", 46, 20), catalog_item(3, "C", 46, 30)],
            None,
        )),
        _ => panic!("no other source should be asked"),
    });
    assert_eq!(calls.len(), 1);
    assert_eq!(
        triples(&r),
        vec![(1, "A".to_string(), 10), (2, "B".to_string(), 20), (3, "C".to_string(), 30)]
    );
}

#[test]
fn catalog_filters_type_price_and_duplicates() {
    let body = listing(
        vec![
            catalog_item(1, "Pass", 46, 10),
            catalog_item(2, "Shirt", 11, 10),
            catalog_item(3, "Free", 46, 0),
            catalog_item(1, "Again", 46, 15),
            obj(vec![("id", JsonValue::PosInt(4)), ("assetType", obj(vec![("id", JsonValue::PosInt(46))]))]),
            obj(vec![("name", s("NoId")), ("price", JsonValue::PosInt(3))]),
        ],
        None,
    );
    let items = decode_catalog(&body).unwrap();
    assert_eq!(items.len(), 5);
    let r = select_catalog(1, &items);
    let got: Vec<(u64, String, i64)> = r.iter().map(|p| (p.id, p.name.clone(), p.price)).collect();
    assert_eq!(got, vec![(1, "Pass".to_string(), 10)]);
}

#[test]
fn empty_source_falls_back_to_next() {
    let (r, calls) = drive(3, vec![SourceKind::PublicGames, SourceKind::Catalog], false, |req| match req {
        Request::GamesPage { .. } => None,
        Request::CatalogSearch { .. } => Some(listing(vec![catalog_item(8, "Cat", 46, 25)], None)),
        _ => None,
    });
    assert_eq!(calls.len(), 2);
    assert!(matches!(calls[1], Request::CatalogSearch { user_id: 3 }));
    assert_eq!(triples(&r), vec![(8, "Cat".to_string(), 25)]);
}

#[test]
fn source_with_only_rejected_passes_falls_back() {
    let (r, calls) = drive(3, vec![SourceKind::UserPasses, SourceKind::Catalog], false, |req| match req {
        Request::UserPassesPage { .. } => Some(listing(vec![pass_entry(1, "X")], None)),
        Request::AssetDetail { .. } => Some(detail(-4, 3)),
        Request::CatalogSearch { .. } => Some(listing(vec![catalog_item(9, "Y", 46, 1)], None)),
        _ => None,
    });
    assert_eq!(calls.len(), 3);
    assert_eq!(triples(&r), vec![(9, "Y".to_string(), 1)]);
}

#[test]
fn all_sources_failing_gives_empty_ok() {
    let sources = vec![SourceKind::Catalog, SourceKind::PublicGames, SourceKind::UserPasses];
    let (r, calls) = drive(4, sources, false, |_| None);
    assert_eq!(calls.len(), 3);
    assert!(r.ok);
    assert_eq!(r.user_id, 4);
    assert_eq!(r.count, 0);
    assert!(r.passes.is_empty());
}

#[test]
fn no_sources_gives_empty_ok() {
    let agg = Aggregator::new(4, vec![]);
    assert!(agg.next_request().is_none());
    let r = agg.finish(false);
    assert!(r.ok);
    assert_eq!(r.count, 0);
}

#[test]
fn repeated_runs_give_the_same_passes() {
    let answer = |req: &Request| match req {
        Request::GamesPage { .. } => Some(listing(
            vec![obj(vec![("id", JsonValue::PosInt(1))]), obj(vec![("id", JsonValue::PosInt(2))])],
            None,
        )),
        Request::GamePasses { universe_id } => {
            Some(listing(vec![pass_entry(*universe_id * 10, "G"), pass_entry(99, "Shared")], None))
        }
        Request::AssetDetail { pass_id } => Some(detail(*pass_id as i64, 1)),
        _ => None,
    };
    let (a, _) = drive(1, vec![SourceKind::PublicGames], false, answer);
    let (b, _) = drive(1, vec![SourceKind::PublicGames], false, answer);
    assert_eq!(triples(&a), triples(&b));
    assert_eq!(a.count, 3);
}

#[test]
fn shared_pass_is_looked_up_once() {
    let (r, calls) = drive(1, vec![SourceKind::PublicGames], false, |req| match req {
        Request::GamesPage { .. } => Some(listing(
            vec![obj(vec![("id", JsonValue::PosInt(1))]), obj(vec![("id", JsonValue::PosInt(2))])],
            None,
        )),
        Request::GamePasses { .. } => Some(listing(vec![pass_entry(77, "Shared")], None)),
        Request::AssetDetail { .. } => Some(detail(12, 1)),
        _ => None,
    });
    let lookups = calls.iter().filter(|c| matches!(c, Request::AssetDetail { .. })).count();
    assert_eq!(lookups, 1);
    assert_eq!(triples(&r), vec![(77, "Shared".to_string(), 12)]);
}

#[test]
fn failed_detail_skips_only_that_pass() {
    let (r, _) = drive(2, vec![SourceKind::UserPasses], false, |req| match req {
        Request::UserPassesPage { .. } => Some(listing(vec![pass_entry(1, "A"), pass_entry(2, "B")], None)),
        Request::AssetDetail { pass_id: 1 } => None,
        Request::AssetDetail { pass_id: 2 } => Some(detail(3, 2)),
        _ => None,
    });
    assert_eq!(triples(&r), vec![(2, "B".to_string(), 3)]);
}

#[test]
fn user_passes_pages_are_all_read() {
    let (r, calls) = drive(2, vec![SourceKind::UserPasses], false, |req| match req {
        Request::UserPassesPage { cursor: None, .. } => Some(listing(vec![pass_entry(1, "A")], Some("next"))),
        Request::UserPassesPage { cursor: Some(_), .. } => Some(listing(vec![pass_entry(2, "B")], None)),
        Request::AssetDetail { .. } => Some(detail(4, 2)),
        _ => None,
    });
    assert_eq!(calls.len(), 4);
    assert_eq!(r.count, 2);
}

#[test]
fn sorted_result_is_by_ascending_price() {
    let (r, _) = drive(1, vec![SourceKind::Catalog], true, |_| {
        Some(listing(
            vec![catalog_item(1, "C", 46, 30), catalog_item(2, "A", 46, 10), catalog_item(3, "B", 46, 20)],
            None,
        ))
    });
    let prices: Vec<i64> = r.passes.iter().map(|p| p.price).collect();
    assert_eq!(prices, vec![10, 20, 30]);
    assert_eq!(r.count, 3);
}

#[test]
fn sort_keeps_order_of_equal_prices() {
    let ps = vec![pass(1, "a", 5), pass(2, "b", 3), pass(3, "c", 5), pass(4, "d", 3)];
    let ids: Vec<u64> = sort_by_price(&ps).iter().map(|p| p.id).collect();
    assert_eq!(ids, vec![2, 4, 1, 3]);
}

#[test]
fn detail_price_falls_back_to_price_field() {
    let v = obj(vec![("PriceInRobux", JsonValue::Null), ("Price", JsonValue::PosInt(40))]);
    let d = decode_detail(&v);
    assert_eq!(d.price, Some(40));
    assert_eq!(d.creator_id, None);
    let both = obj(vec![("Price", JsonValue::PosInt(40)), ("PriceInRobux", JsonValue::PosInt(45))]);
    assert_eq!(decode_detail(&both).price, Some(45));
    let fraction = obj(vec![("PriceInRobux", JsonValue::OtherNumber)]);
    assert_eq!(decode_detail(&fraction).price, None);
}

#[test]
fn pass_listing_defaults_and_skips() {
    let v = listing(
        vec![
            obj(vec![("id", JsonValue::PosInt(5))]),
            obj(vec![("id", s("6")), ("name", s("Bad"))]),
            pass_entry(7, "Named"),
        ],
        Some(""),
    );
    let page = decode_pass_page(&v).unwrap();
    let got: Vec<(u64, String)> = page.entries.iter().map(|e| (e.id, e.name.clone())).collect();
    assert_eq!(got, vec![(5, "GamePass".to_string()), (7, "Named".to_string())]);
    assert!(page.next_cursor.is_none());
    assert!(decode_pass_page(&obj(vec![("data", JsonValue::Null)])).is_none());
    assert!(decode_games_page(&JsonValue::Array(vec![])).is_none());
}

#[test]
fn games_page_keeps_cursor() {
    let v = listing(vec![obj(vec![("id", JsonValue::PosInt(3))])], Some("abc"));
    let page = decode_games_page(&v).unwrap();
    assert_eq!(page.game_ids, vec![3]);
    assert_eq!(page.next_cursor, Some("abc".to_string()));
}

#[test]
fn json_accessors() {
    let v = obj(vec![("k", JsonValue::PosInt(u64::MAX)), ("n", JsonValue::NegInt(-2))]);
    assert_eq!(v.get("k").unwrap().as_u64(), Some(u64::MAX));
    assert_eq!(v.get("k").unwrap().as_i64(), None);
    assert_eq!(v.get("n").unwrap().as_i64(), Some(-2));
    assert_eq!(v.get("n").unwrap().as_u64(), None);
    assert!(v.get("missing").is_none());
    assert!(JsonValue::Null.get("k").is_none());
    assert_eq!(s("hi").as_str(), Some("hi"));
    assert!(str_equal("abc", "abc"));
    assert!(!str_equal("abc", "abd"));
    assert!(!str_equal("ab", "abc"));
}
