use routerify_query::{decode_query, QueryMap, RequestContext, RequestQueryExt, TextParsable};

fn bound(query: Option<&str>) -> RequestContext {
    let mut ctx = RequestContext::new();
    ctx.bind_query(query);
    ctx
}

#[test]
fn absent_query_gives_empty_map() {
    let map = decode_query(None);
    assert_eq!(map.len(), 0);
    assert_eq!(map.get("x"), None);
    let ctx = bound(None);
    assert!(ctx.has_queries());
    assert_eq!(ctx.query("x"), None);
    assert_eq!(ctx.queries().len(), 0);
}

#[test]
fn empty_query_gives_empty_map() {
    let map = decode_query(Some(""));
    assert_eq!(map.len(), 0);
    assert_eq!(map.get(""), None);
}

#[test]
fn last_occurrence_wins() {
    let ctx = bound(Some("a=1&a=2"));
    assert_eq!(ctx.query("a").map(|s| s.as_str()), Some("2"));
    assert_eq!(ctx.queries().len(), 1);
}

#[test]
fn two_names_are_both_found() {
    let ctx = bound(Some("a=1&b=2"));
    assert_eq!(ctx.query("a").map(|s| s.as_str()), Some("1"));
    assert_eq!(ctx.query("b").map(|s| s.as_str()), Some("2"));
    assert_eq!(ctx.query("c"), None);
    assert_eq!(ctx.queries().len(), 2);
}

#[test]
fn plus_decodes_to_space() {
    let ctx = bound(Some("name=John+Doe"));
    assert_eq!(ctx.query("name").map(|s| s.as_str()), Some("John Doe"));
}

#[test]
fn percent_escape_decodes() {
    let ctx = bound(Some("name=A%26B"));
    assert_eq!(ctx.query("name").map(|s| s.as_str()), Some("A&B"));
}

#[test]
fn escaped_name_decodes() {
    let map = decode_query(Some("%23first=%25try%25"));
    assert_eq!(map.get("#first").map(|s| s.as_str()), Some("%try%"));
    assert_eq!(map.get("%23first"), None);
}

#[test]
fn pair_without_equals_has_empty_value() {
    let map = decode_query(Some("flag&x=1"));
    assert_eq!(map.get("flag").map(|s| s.as_str()), Some(""));
    assert_eq!(map.get("x").map(|s| s.as_str()), Some("1"));
}

#[test]
fn value_splits_on_first_equals_only() {
    let map = decode_query(Some("k=a=b"));
    assert_eq!(map.get("k").map(|s| s.as_str()), Some("a=b"));
}

#[test]
fn empty_pieces_are_skipped() {
    let map = decode_query(Some("&&a=1&&"));
    assert_eq!(map.len(), 1);
    assert_eq!(map.get("a").map(|s| s.as_str()), Some("1"));
}

#[test]
fn malformed_escape_passes_through() {
    let map = decode_query(Some("a=%zz&b=100%"));
    assert_eq!(map.get("a").map(|s| s.as_str()), Some("%zz"));
    assert_eq!(map.get("b").map(|s| s.as_str()), Some("100%"));
}

#[test]
fn parsed_usize_present() {
    let ctx = bound(Some("page=7"));
    let r = ctx.query_parsed::<usize>("page");
    assert!(matches!(r, Some(Ok(7))));
}

#[test]
fn parsed_usize_malformed() {
    let ctx = bound(Some("page=seven"));
    let r = ctx.query_parsed::<usize>("page");
    assert!(matches!(r, Some(Err(_))));
}

#[test]
fn parsed_usize_missing() {
    let ctx = bound(Some("other=1"));
    let r = ctx.query_parsed::<usize>("page");
    assert!(r.is_none());
}

#[test]
fn parsed_usize_edges() {
    assert_eq!(<usize as TextParsable>::parse_text("+42").ok(), Some(42));
    assert!(<usize as TextParsable>::parse_text("").is_err());
    assert!(<usize as TextParsable>::parse_text("+").is_err());
    assert!(<usize as TextParsable>::parse_text("-1").is_err());
    assert!(<usize as TextParsable>::parse_text(" 1").is_err());
    let max = format!("{}", usize::MAX);
    assert_eq!(<usize as TextParsable>::parse_text(&max).ok(), Some(usize::MAX));
    let over = format!("{}0", usize::MAX);
    assert!(<usize as TextParsable>::parse_text(&over).is_err());
}

#[test]
fn parsed_bool() {
    let ctx = bound(Some("enjoying=true&tired=false&odd=yes"));
    assert!(matches!(ctx.query_parsed::<bool>("enjoying"), Some(Ok(true))));
    assert!(matches!(ctx.query_parsed::<bool>("tired"), Some(Ok(false))));
    assert!(matches!(ctx.query_parsed::<bool>("odd"), Some(Err(_))));
    assert!(ctx.query_parsed::<bool>("missing").is_none());
}

#[test]
fn unbound_context_is_distinct_from_missing_parameter() {
    let unbound = RequestContext::new();
    assert!(!unbound.has_queries());
    let empty = bound(Some(""));
    assert!(empty.has_queries());
    assert_eq!(empty.query("x"), None);
}

#[test]
fn rebinding_replaces_the_map() {
    let mut ctx = RequestContext::new();
    ctx.bind_query(Some("a=1"));
    ctx.bind_query(Some("b=2"));
    assert_eq!(ctx.query("a"), None);
    assert_eq!(ctx.query("b").map(|s| s.as_str()), Some("2"));
}

#[test]
fn decoding_twice_gives_equal_maps() {
    let raw = "a=1&b=x+y&a=3&c=%41";
    let m1 = decode_query(Some(raw));
    let m2 = decode_query(Some(raw));
    assert_eq!(m1.len(), m2.len());
    for name in ["a", "b", "c", "d"] {
        assert_eq!(m1.get(name), m2.get(name));
    }
    assert_eq!(m1.get("a").map(|s| s.as_str()), Some("3"));
    assert_eq!(m1.get("b").map(|s| s.as_str()), Some("x y"));
    assert_eq!(m1.get("c").map(|s| s.as_str()), Some("A"));
}

#[test]
fn map_insert_overwrites() {
    let mut map = QueryMap::new();
    map.insert("k".to_string(), "1".to_string());
    map.insert("j".to_string(), "2".to_string());
    map.insert("k".to_string(), "3".to_string());
    assert_eq!(map.len(), 2);
    assert_eq!(map.get("k").map(|s| s.as_str()), Some("3"));
    assert_eq!(map.get("j").map(|s| s.as_str()), Some("2"));
}

#[test]
fn from_pairs_folds_in_order() {
    let pairs = vec![
        ("a".to_string(), "1".to_string()),
        ("b".to_string(), "2".to_string()),
        ("a".to_string(), "9".to_string()),
    ];
    let map = QueryMap::from_pairs(pairs);
    assert_eq!(map.len(), 2);
    assert_eq!(map.get("a").map(|s| s.as_str()), Some("9"));
}
