use airship::route::{
    dispatch_list, root, route, route_text, run_router, star, var, BoundOrUnbound, Route, RoutingSpec,
    RoutingTrie,
};

fn table(entries: Vec<(&'static str, u32)>) -> RoutingTrie<u32> {
    run_router(RoutingSpec(entries))
}

fn lookup(t: &RoutingTrie<u32>, path: &str) -> Option<(u32, Vec<(String, String)>, Vec<String>)> {
    route(t, path.to_string()).map(|(rr, (params, dispatch))| (rr.1, params, dispatch))
}

fn pair(a: &str, b: &str) -> (String, String) {
    (a.to_string(), b.to_string())
}

#[test]
fn literal_route_wins_over_variables() {
    let t = table(vec![("blog </> ::year:: </> ::slug::", 1), ("blog </> archive", 2)]);
    let (res, params, _) = lookup(&t, "/blog/archive").unwrap();
    assert_eq!(res, 2);
    assert!(params.is_empty());
}

#[test]
fn wildcard_keeps_the_remainder() {
    let t = table(vec![("files </> *", 7)]);
    let (res, params, dispatch) = lookup(&t, "/files/a/b/c").unwrap();
    assert_eq!(res, 7);
    assert!(params.is_empty());
    assert_eq!(dispatch, vec!["a/b/c".to_string()]);
}

#[test]
fn variables_are_collected_in_order() {
    let t = table(vec![("blog </> ::year:: </> ::slug::", 1), ("blog </> archive", 2)]);
    let (res, params, _) = lookup(&t, "/blog/2024/hello").unwrap();
    assert_eq!(res, 1);
    assert_eq!(params, vec![pair("year", "2024"), pair("slug", "hello")]);
}

#[test]
fn variable_keys_are_base64_of_the_prefix() {
    let t = table(vec![("blog </> ::year:: </> ::slug::", 1)]);
    assert!(t.trie.get("/blog").is_some());
    assert!(t.trie.get("L2Jsb2d2YXI=").is_some());
    assert!(t.trie.get("TDJKc2IyZDJZWEk9dmFy").is_some());
    assert!(t.trie.get("/blogvar").is_none());
}

#[test]
fn literal_dispatch_path_is_the_matched_key_split() {
    let t = table(vec![("test </> place", 3)]);
    let (res, params, dispatch) = lookup(&t, "/test/place").unwrap();
    assert_eq!(res, 3);
    assert!(params.is_empty());
    assert_eq!(dispatch, vec!["".to_string(), "test".to_string(), "place".to_string()]);
}

#[test]
fn longer_path_than_any_route_fails() {
    let t = table(vec![("test </> place", 3)]);
    assert!(lookup(&t, "/test/place/more").is_none());
    assert!(lookup(&t, "/nothing").is_none());
}

#[test]
fn variable_needs_one_slash() {
    let t = table(vec![("a </> ::x::", 1)]);
    assert!(lookup(&t, "/a//b").is_none());
    assert!(lookup(&t, "/a").is_none());
    assert_eq!(lookup(&t, "/a/b").unwrap().1, vec![pair("x", "b")]);
}

#[test]
fn match_or_var_serves_both() {
    let t = table(vec![("a", 1), ("a </> ::x::", 2)]);
    assert_eq!(lookup(&t, "/a").unwrap().0, 1);
    let (res, params, _) = lookup(&t, "/a/zz").unwrap();
    assert_eq!(res, 2);
    assert_eq!(params, vec![pair("x", "zz")]);
}

#[test]
fn earlier_route_wins_on_the_same_key() {
    let t = table(vec![("a </> b", 1), ("a </> b", 2)]);
    assert_eq!(lookup(&t, "/a/b").unwrap().0, 1);
}

#[test]
fn wildcard_wins_over_earlier_route() {
    let t = table(vec![("a", 1), ("a </> *", 2)]);
    assert_eq!(lookup(&t, "/a").unwrap().0, 2);
    assert_eq!(lookup(&t, "/a/x/y").unwrap().2, vec!["x/y".to_string()]);
}

#[test]
fn empty_template_is_the_root() {
    let t = table(vec![("", 5)]);
    assert_eq!(lookup(&t, "/").unwrap().0, 5);
}

#[test]
fn lookup_twice_gives_the_same() {
    let t = table(vec![("blog </> ::year:: </> ::slug::", 1), ("files </> *", 2)]);
    for p in ["/blog/1/2", "/files/x", "/none"] {
        assert_eq!(lookup(&t, p), lookup(&t, p));
    }
}

#[test]
fn parse_classifies_segments() {
    let r = Route::parse(" blog </> ::year:: </> * ");
    assert_eq!(r.0.len(), 3);
    assert!(matches!(&r.0[0], BoundOrUnbound::Bound(t) if t == "blog"));
    assert!(matches!(&r.0[1], BoundOrUnbound::Var(t) if t == "year"));
    assert!(matches!(&r.0[2], BoundOrUnbound::RestUnbound));
}

#[test]
fn route_text_joins_segments() {
    assert_eq!(route_text(&Route::parse("blog </> ::year:: </> *")), "blog,:year,*");
    assert_eq!(route_text(&root()), "");
    assert_eq!(route_text(&var("id".to_string())), ":id");
    assert_eq!(route_text(&star()), "*");
}

#[test]
fn dispatch_list_splits_prefix_and_match() {
    assert_eq!(dispatch_list(None, "/a/b"), vec!["".to_string(), "a".to_string(), "b".to_string()]);
    assert_eq!(dispatch_list(None, "a"), vec!["a".to_string()]);
    assert_eq!(
        dispatch_list(Some("x".to_string()), "/a/b"),
        vec!["x".to_string(), "a".to_string(), "b".to_string()]
    );
    assert_eq!(dispatch_list(Some(String::new()), "abc"), vec!["abc".to_string()]);
}
