use items_api::router::{configure_routes, match_route, parse_i32, RouteTarget};

#[test]
fn static_routes_dispatch_exactly() {
    assert_eq!(match_route("GET", "/"), Some(RouteTarget::Home));
    assert_eq!(match_route("GET", "/health"), Some(RouteTarget::Health));
    assert_eq!(match_route("GET", "/api/"), Some(RouteTarget::ApiInfo));
    assert_eq!(match_route("GET", "/api/items"), Some(RouteTarget::ListItems));
    assert_eq!(match_route("POST", "/api/items"), Some(RouteTarget::CreateItem));
}

#[test]
fn item_routes_carry_the_parsed_id() {
    assert_eq!(match_route("GET", "/api/items/123"), Some(RouteTarget::GetItem(123)));
    assert_eq!(match_route("DELETE", "/api/items/5"), Some(RouteTarget::DeleteItem(5)));
    assert_eq!(match_route("GET", "/api/items/-7"), Some(RouteTarget::GetItem(-7)));
}

#[test]
fn unmatched_requests_dispatch_nowhere() {
    assert_eq!(match_route("POST", "/health"), None);
    assert_eq!(match_route("GET", "/api"), None);
    assert_eq!(match_route("PUT", "/api/items"), None);
    assert_eq!(match_route("GET", "/api/items/"), None);
    assert_eq!(match_route("GET", "/api/items/abc"), None);
    assert_eq!(match_route("GET", "/api/items/12x"), None);
    assert_eq!(match_route("DELETE", "/api/items"), None);
}

#[test]
fn id_parsing_matches_integer_grammar() {
    assert_eq!(parse_i32("0"), Some(0));
    assert_eq!(parse_i32("007"), Some(7));
    assert_eq!(parse_i32("+15"), Some(15));
    assert_eq!(parse_i32("-15"), Some(-15));
    assert_eq!(parse_i32("2147483647"), Some(i32::MAX));
    assert_eq!(parse_i32("-2147483648"), Some(i32::MIN));
    assert_eq!(parse_i32("2147483648"), None);
    assert_eq!(parse_i32("-2147483649"), None);
    assert_eq!(parse_i32("99999999999999999999"), None);
    assert_eq!(parse_i32(""), None);
    assert_eq!(parse_i32("+"), None);
    assert_eq!(parse_i32("-"), None);
    assert_eq!(parse_i32(" 5"), None);
    assert_eq!(parse_i32("5 "), None);
}

#[test]
fn route_table_lists_the_seven_routes() {
    let routes = configure_routes();
    assert_eq!(routes.len(), 7);
    let summary: Vec<(String, String)> =
        routes.iter().map(|r| (r.method.clone(), r.path.clone())).collect();
    assert_eq!(
        summary,
        vec![
            ("GET".to_string(), "/".to_string()),
            ("GET".to_string(), "/health".to_string()),
            ("GET".to_string(), "/api/".to_string()),
            ("GET".to_string(), "/api/items".to_string()),
            ("POST".to_string(), "/api/items".to_string()),
            ("GET".to_string(), "/api/items/{id}".to_string()),
            ("DELETE".to_string(), "/api/items/{id}".to_string()),
        ]
    );
    assert_eq!(routes[1].description, "Health check");
}
