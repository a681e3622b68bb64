use script_server::annotation::{meta_from_source, parse_route_annotation};
use script_server::dispatch::{parse_method, HandlerMeta, HttpMethod, RouteTable};
use script_server::entry::{http_reply, not_found_reply, plan_request, RoutePlan, WaitOutcome};
use script_server::router::Router;
use script_server::worker::ExecutionResult;

fn meta(name: &str, method: Option<HttpMethod>, path: Option<&str>) -> HandlerMeta {
    HandlerMeta {
        name: name.to_string(),
        method,
        path: path.map(|p| p.to_string()),
    }
}

#[test]
fn annotated_sources_make_two_routes_and_one_unrouted() {
    let users = meta_from_source(
        "users".to_string(),
        "// GET /users\nasync (req, res) => { res.send('u'); }",
    );
    let posts = meta_from_source(
        "posts".to_string(),
        "// /posts\nasync (req, res) => { res.send('p'); }",
    );
    let bare = meta_from_source(
        "bare".to_string(),
        "async (req, res) => { res.send('b'); }",
    );
    let table = RouteTable::build(vec![users, posts, bare]);
    assert_eq!(table.route_count(), 2);
    assert_eq!(table.unrouted_count(), 1);
    assert_eq!(table.unrouted_names()[0], "bare");
    let hit = table.lookup(HttpMethod::Get, "/users");
    assert!(matches!(hit, Some((h, _)) if h == "users"));
    let hit = table.lookup(HttpMethod::Get, "/posts");
    assert!(matches!(hit, Some((h, _)) if h == "posts"));
    assert!(table.lookup(HttpMethod::Post, "/users").is_none());
    assert!(table.lookup(HttpMethod::Get, "/bare").is_none());
}

#[test]
fn annotation_forms() {
    let (m, p) = parse_route_annotation("/// POST /x\nbody");
    assert_eq!(m, Some(HttpMethod::Post));
    assert_eq!(p.as_deref(), Some("/x"));

    let (m, p) = parse_route_annotation("/* put /y */\nbody");
    assert_eq!(m, Some(HttpMethod::Put));
    assert_eq!(p.as_deref(), Some("/y"));

    let (m, p) = parse_route_annotation("// /posts\nbody");
    assert_eq!(m, None);
    assert_eq!(p.as_deref(), Some("/posts"));

    let (m, p) = parse_route_annotation("// DELETE\nbody");
    assert_eq!(m, None);
    assert_eq!(p, None);

    let (m, p) = parse_route_annotation("no comment here\nbody");
    assert_eq!(m, None);
    assert_eq!(p, None);

    let (m, p) = parse_route_annotation("//   patch   /a/b  \r\nbody");
    assert_eq!(m, Some(HttpMethod::Patch));
    assert_eq!(p.as_deref(), Some("/a/b"));

    // Stacked block markers are all stripped, as repeated trimming would.
    let (m, p) = parse_route_annotation("/*/* GET /z */*/\nbody");
    assert_eq!(m, Some(HttpMethod::Get));
    assert_eq!(p.as_deref(), Some("/z"));

    let (m, p) = parse_route_annotation("");
    assert_eq!(m, None);
    assert_eq!(p, None);
}

#[test]
fn method_tokens_any_case() {
    assert_eq!(parse_method("get"), Some(HttpMethod::Get));
    assert_eq!(parse_method("DELETE"), Some(HttpMethod::Delete));
    assert_eq!(parse_method("PaTcH"), Some(HttpMethod::Patch));
    assert_eq!(parse_method("OPTIONS"), None);
    assert_eq!(parse_method(""), None);
}

#[test]
fn path_parameters_bind_positionally() {
    let mut table = RouteTable::new();
    table.register(meta("show", Some(HttpMethod::Get), Some("/users/:id/posts/:pid")));
    let (h, params) = table.lookup(HttpMethod::Get, "/users/42/posts/7").unwrap();
    assert_eq!(h, "show");
    assert_eq!(params.len(), 2);
    assert_eq!(params[0].0, "id");
    assert_eq!(params[0].1, "42");
    assert_eq!(params[1].0, "pid");
    assert_eq!(params[1].1, "7");
    assert!(table.lookup(HttpMethod::Get, "/users/42").is_none());
    assert!(table.lookup(HttpMethod::Get, "/users/42/posts").is_none());
}

#[test]
fn duplicate_route_last_registered_wins() {
    let mut table = RouteTable::new();
    table.register(meta("first", Some(HttpMethod::Get), Some("/a")));
    table.register(meta("second", Some(HttpMethod::Get), Some("/a")));
    assert_eq!(table.route_count(), 1);
    let (h, _) = table.lookup(HttpMethod::Get, "/a").unwrap();
    assert_eq!(h, "second");
}

#[test]
fn plan_request_splits_query_last_key_wins() {
    let mut table = RouteTable::new();
    table.register(meta("list", Some(HttpMethod::Get), Some("/items/:kind")));
    let plan = plan_request(&table, "GET", "/items/books?a=1&b=2&a=3");
    match plan {
        RoutePlan::Run { handler, params, query } => {
            assert_eq!(handler, "list");
            assert_eq!(params, vec![("kind".to_string(), "books".to_string())]);
            let a = query.iter().find(|(k, _)| k == "a").map(|(_, v)| v.clone());
            let b = query.iter().find(|(k, _)| k == "b").map(|(_, v)| v.clone());
            assert_eq!(a.as_deref(), Some("3"));
            assert_eq!(b.as_deref(), Some("2"));
            assert_eq!(query.len(), 2);
        }
        RoutePlan::NotFound => panic!("expected a plan"),
    }
    assert!(matches!(
        plan_request(&table, "BREW", "/items/books"),
        RoutePlan::NotFound
    ));
    assert!(matches!(
        plan_request(&table, "GET", "/missing"),
        RoutePlan::NotFound
    ));
    match plan_request(&table, "get", "/items/tools") {
        RoutePlan::Run { handler, params, query } => {
            assert_eq!(handler, "list");
            assert_eq!(params, vec![("kind".to_string(), "tools".to_string())]);
            assert!(query.is_empty());
        }
        RoutePlan::NotFound => panic!("expected a plan without a query string"),
    }
}

#[test]
fn plan_request_percent_decodes_params_and_query() {
    let mut table = RouteTable::new();
    table.register(meta("list", Some(HttpMethod::Get), Some("/items/:kind")));
    match plan_request(&table, "GET", "/items/old%20books?a=1+2&b%3Dc=%26amp&bad=%zz") {
        RoutePlan::Run { handler, params, query } => {
            assert_eq!(handler, "list");
            // Path parameter values decode %XX; a plus stays a plus there.
            assert_eq!(params, vec![("kind".to_string(), "old books".to_string())]);
            let get = |k: &str| {
                query.iter().find(|(key, _)| key == k).map(|(_, v)| v.clone())
            };
            // Query keys and values decode %XX, and a plus reads as a space.
            assert_eq!(get("a").as_deref(), Some("1 2"));
            assert_eq!(get("b=c").as_deref(), Some("&amp"));
            // A malformed escape stands as written.
            assert_eq!(get("bad").as_deref(), Some("%zz"));
        }
        RoutePlan::NotFound => panic!("expected a plan"),
    }

    // The route is matched on the raw path: an encoded slash does not
    // split a segment.
    match plan_request(&table, "GET", "/items/a%2Fb") {
        RoutePlan::Run { params, .. } => {
            assert_eq!(params, vec![("kind".to_string(), "a/b".to_string())]);
        }
        RoutePlan::NotFound => panic!("expected a plan"),
    }
}

#[test]
fn http_replies_carry_exact_statuses() {
    let (s, b) = http_reply(WaitOutcome::Completed(ExecutionResult {
        status_code: 201,
        body: "made".to_string(),
    }));
    assert_eq!((s, b.as_str()), (201, "made"));
    let (s, b) = http_reply(WaitOutcome::WorkerError("No result stored".to_string()));
    assert_eq!((s, b.as_str()), (500, "No result stored"));
    let (s, b) = http_reply(WaitOutcome::ChannelClosed);
    assert_eq!((s, b.as_str()), (500, "Handler failed to respond"));
    let (s, b) = http_reply(WaitOutcome::TimedOut);
    assert_eq!((s, b.as_str()), (504, "Handler timeout"));
    let (s, b) = not_found_reply();
    assert_eq!((s, b.as_str()), (404, ""));
}

#[test]
fn router_registry_basics() {
    let mut r = Router::new();
    r.add_route("/users".to_string(), Some("GET".to_string()));
    r.add_route("/posts".to_string(), None);
    assert_eq!(r.count(), 2);
    assert!(r.has_route("/users"));
    assert!(!r.has_route("/nope"));
    let info = r.find_route("/users").unwrap();
    assert_eq!(info.path, "/users");
    assert_eq!(info.method.as_deref(), Some("GET"));
    r.add_route("/users".to_string(), Some("POST".to_string()));
    assert_eq!(r.count(), 2);
    assert_eq!(r.find_route("/users").unwrap().method.as_deref(), Some("POST"));
    assert!(r.remove_route("/users"));
    assert!(!r.remove_route("/users"));
    assert_eq!(r.get_routes(), vec!["/posts".to_string()]);
    r.clear();
    assert_eq!(r.count(), 0);
}
