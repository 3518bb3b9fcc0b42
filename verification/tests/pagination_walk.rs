use linear_cli::json::JsonValue;
use linear_cli::pagination::{PaginationOptions, Paginator};

fn s(text: &str) -> JsonValue {
    JsonValue::Str(text.to_string())
}

fn node(id: &str) -> JsonValue {
    JsonValue::Obj(vec![("id".to_string(), s(id))])
}

fn page(ids: &[&str], has_next: bool, cursor: Option<&str>) -> JsonValue {
    let mut info = vec![("hasNextPage".to_string(), JsonValue::Bool(has_next))];
    if let Some(c) = cursor {
        info.push(("endCursor".to_string(), s(c)));
    }
    JsonValue::Obj(vec![(
        "data".to_string(),
        JsonValue::Obj(vec![(
            "things".to_string(),
            JsonValue::Obj(vec![
                (
                    "nodes".to_string(),
                    JsonValue::Arr(ids.iter().map(|i| node(i)).collect()),
                ),
                ("pageInfo".to_string(), JsonValue::Obj(info)),
            ]),
        )]),
    )])
}

const NODES: &[&str] = &["data", "things", "nodes"];
const INFO: &[&str] = &["data", "things", "pageInfo"];

fn three_pages() -> Vec<JsonValue> {
    vec![
        page(&["a", "b"], true, Some("c1")),
        page(&["c", "d"], true, Some("c2")),
        page(&["e"], false, None),
    ]
}

fn ids(items: &[JsonValue]) -> Vec<String> {
    items
        .iter()
        .map(|n| match n {
            JsonValue::Obj(pairs) => match &pairs[0].1 {
                JsonValue::Str(v) => v.clone(),
                _ => panic!("node id is a string"),
            },
            _ => panic!("node is an object"),
        })
        .collect()
}

#[test]
fn test_paginate_all_flattens_in_order() {
    let opts = PaginationOptions { all: true, ..Default::default() };
    let mut pager = Paginator::new(&opts, 250);
    let mut fetches = 0;
    for response in three_pages() {
        assert!(!pager.is_done());
        pager.feed_page(response, NODES, INFO);
        fetches += 1;
    }
    assert!(pager.is_done());
    assert_eq!(fetches, 3);
    assert_eq!(ids(pager.items()), vec!["a", "b", "c", "d", "e"]);
}

#[test]
fn test_paginate_limit_truncates_and_stops() {
    let opts = PaginationOptions { limit: Some(3), ..Default::default() };
    let mut pager = Paginator::new(&opts, 250);
    let mut fetches = 0;
    for response in three_pages() {
        if pager.is_done() {
            break;
        }
        pager.feed_page(response, NODES, INFO);
        fetches += 1;
    }
    // Exactly 2 page fetches, not 3, and exactly the first 3 items.
    assert_eq!(fetches, 2);
    assert_eq!(ids(pager.items()), vec!["a", "b", "c"]);
}

#[test]
fn test_paginate_empty_first_page() {
    let opts = PaginationOptions { all: true, ..Default::default() };
    let mut pager = Paginator::new(&opts, 250);
    pager.feed_page(page(&[], false, None), NODES, INFO);
    assert!(pager.is_done());
    assert_eq!(pager.into_items(), Vec::<JsonValue>::new());
}

#[test]
fn test_paginate_repeated_cursor_terminates() {
    let opts = PaginationOptions {
        all: true,
        after: Some("c1".to_string()),
        ..Default::default()
    };
    let mut pager = Paginator::new(&opts, 250);
    // The page advertises more data but hands back the cursor just used.
    pager.feed_page(page(&["a"], true, Some("c1")), NODES, INFO);
    assert!(pager.is_done());
    assert_eq!(ids(pager.items()), vec!["a"]);
}

#[test]
fn test_paginate_cursor_advances() {
    let opts = PaginationOptions { all: true, ..Default::default() };
    let mut pager = Paginator::new(&opts, 100);
    pager.feed_page(page(&["a"], true, Some("c1")), NODES, INFO);
    assert!(!pager.is_done());
    assert_eq!(pager.next_after(), &Some("c1".to_string()));
    assert_eq!(pager.request_page_size(), 100);
    pager.feed_page(page(&["b"], true, Some("c2")), NODES, INFO);
    assert_eq!(pager.next_after(), &Some("c2".to_string()));
    pager.feed_page(page(&["c"], false, Some("c3")), NODES, INFO);
    assert!(pager.is_done());
    assert_eq!(ids(pager.items()), vec!["a", "b", "c"]);
}

#[test]
fn test_paginate_missing_cursor_stops() {
    let opts = PaginationOptions { all: true, ..Default::default() };
    let mut pager = Paginator::new(&opts, 250);
    // hasNextPage claims more, but no cursor came back.
    pager.feed_page(page(&["a"], true, None), NODES, INFO);
    assert!(pager.is_done());
}

#[test]
fn test_paginate_page_size_override() {
    let opts = PaginationOptions { page_size: Some(7), ..Default::default() };
    let pager = Paginator::new(&opts, 250);
    assert_eq!(pager.request_page_size(), 7);
}
