use std::sync::Arc;

use bytes::BytesMut;
use karics_core::response::Response;
use karics_core::router::{Handler, MatchType, Router, RouterError};
use karics_core::service::ApiService;

const USERS: &str = "[{\"id\": 1, \"name\": \"Ada\"}]";

#[derive(Clone)]
struct Canned(&'static str);

impl Handler for Canned {
    fn invoke(&self, _params: Vec<String>) -> Response {
        Response::builder()
            .status(200)
            .header("Content-Type", "application/json")
            .body(self.0.as_bytes().to_vec())
    }
}

#[derive(Clone)]
struct Echo;

impl Handler for Echo {
    fn invoke(&self, params: Vec<String>) -> Response {
        Response::builder().body(params.join(",").into_bytes())
    }
}

fn body_of(rsp: &Response) -> String {
    String::from_utf8(rsp.get_body().to_vec()).unwrap()
}

fn wire(rsp: &Response) -> String {
    let mut buf = BytesMut::new();
    karics_core::response::encode(rsp, b"D", &mut buf);
    String::from_utf8(buf.to_vec()).unwrap()
}

#[test]
fn users_listing_scenario() {
    let mut router = Router::new();
    assert!(router.get("/users", Canned(USERS)).is_ok());

    let ok = router.handle("GET", "/users").ok().unwrap();
    let text = wire(&ok);
    assert!(text.starts_with("HTTP/1.1 200 OK\r\n"));
    assert!(text.contains("\r\nContent-Type: application/json\r\n"));
    assert_eq!(body_of(&ok), USERS);

    let missing = router.handle("GET", "/missing").ok().unwrap();
    let text = wire(&missing);
    assert!(text.starts_with("HTTP/1.1 404 Not Found\r\n"));
    assert_eq!(body_of(&missing), "{\"error\": \"Not Found\"}");

    let delete = router.handle("DELETE", "/users").ok().unwrap();
    assert!(wire(&delete).starts_with("HTTP/1.1 405 Method Not Allowed\r\n"));
    assert_eq!(body_of(&delete), "{\"error\": \"Method Not Allowed\"}");
}

#[test]
fn numeric_parameter_scenario() {
    let mut router = Router::new();
    router.get(r"/users/(\d+)", Echo).ok().unwrap();
    match router.match_route("GET", "/users/42") {
        Ok((_, params)) => assert_eq!(params, vec!["42".to_string()]),
        Err(_) => panic!("no match"),
    }
    assert!(matches!(
        router.match_route("GET", "/users/abc"),
        Err(RouterError::NotFound(p)) if p == "/users/abc"
    ));
    let rsp = router.handle("GET", "/users/abc").ok().unwrap();
    assert!(wire(&rsp).starts_with("HTTP/1.1 404 Not Found\r\n"));
}

#[test]
fn method_without_routes_is_not_allowed() {
    let mut router = Router::new();
    router.get("/a", Echo).ok().unwrap();
    assert!(matches!(
        router.match_route("POST", "/a"),
        Err(RouterError::MethodNotAllowed(m)) if m == "POST"
    ));
    assert!(matches!(
        router.match_route("POST", "/nowhere"),
        Err(RouterError::MethodNotAllowed(_))
    ));
    let empty: Router<Echo> = Router::new();
    assert!(matches!(
        empty.match_route("GET", "/"),
        Err(RouterError::MethodNotAllowed(_))
    ));
}

#[test]
fn empty_path_is_invalid_for_any_method() {
    let mut router = Router::new();
    router.get("/a", Echo).ok().unwrap();
    assert!(matches!(router.match_route("GET", ""), Err(RouterError::InvalidPath)));
    assert!(matches!(router.match_route("PURGE", ""), Err(RouterError::InvalidPath)));
    let rsp = router.handle("PURGE", "").ok().unwrap();
    assert!(wire(&rsp).starts_with("HTTP/1.1 400 Bad Request\r\n"));
    assert_eq!(body_of(&rsp), "{\"error\": \"Bad Request\"}");
}

#[test]
fn first_registered_overlapping_route_wins() {
    let mut router = Router::new();
    router.route("GET", "/users", MatchType::Prefix, Canned("prefix")).ok().unwrap();
    router.route("GET", "/users/all", MatchType::Exact, Canned("exact")).ok().unwrap();
    match router.match_route("GET", "/users/all") {
        Ok((h, _)) => assert_eq!(h.0, "prefix"),
        Err(_) => panic!("no match"),
    }

    let mut reversed = Router::new();
    reversed.route("GET", "/users/all", MatchType::Exact, Canned("exact")).ok().unwrap();
    reversed.route("GET", "/users", MatchType::Prefix, Canned("prefix")).ok().unwrap();
    match reversed.match_route("GET", "/users/all") {
        Ok((h, _)) => assert_eq!(h.0, "exact"),
        Err(_) => panic!("no match"),
    }
    match reversed.match_route("GET", "/users/7") {
        Ok((h, _)) => assert_eq!(h.0, "prefix"),
        Err(_) => panic!("no match"),
    }
}

#[test]
fn numeric_pattern_does_not_take_words() {
    let mut router = Router::new();
    router.get(r"/users/(\d+)", Canned("numeric")).ok().unwrap();
    router.get("/users/all", Canned("all")).ok().unwrap();
    match router.match_route("GET", "/users/all") {
        Ok((h, params)) => {
            assert_eq!(h.0, "all");
            assert!(params.is_empty());
        }
        Err(_) => panic!("no match"),
    }
}

#[test]
fn invalid_pattern_is_refused() {
    let mut router = Router::new();
    assert!(matches!(
        router.get("/users/(", Echo),
        Err(RouterError::InvalidPattern(p)) if p == "/users/("
    ));
    assert!(matches!(
        router.match_route("GET", "/users/("),
        Err(RouterError::MethodNotAllowed(_))
    ));
}

#[test]
fn exact_match_treats_text_literally() {
    let mut router = Router::new();
    router.route("GET", "/a.b(c)", MatchType::Exact, Canned("lit")).ok().unwrap();
    assert!(router.match_route("GET", "/a.b(c)").is_ok());
    assert!(matches!(router.match_route("GET", "/axbc"), Err(RouterError::NotFound(_))));
    assert!(matches!(router.match_route("GET", "/a.b(c)/x"), Err(RouterError::NotFound(_))));
}

#[test]
fn regex_routes_match_the_whole_path() {
    let mut router = Router::new();
    router.get("/users", Echo).ok().unwrap();
    assert!(router.match_route("GET", "/users").is_ok());
    assert!(matches!(router.match_route("GET", "/users/1"), Err(RouterError::NotFound(_))));
    assert!(matches!(router.match_route("GET", "/x/users"), Err(RouterError::NotFound(_))));
}

#[test]
fn optional_group_that_took_no_part_is_empty() {
    let mut router = Router::new();
    router.get(r"/items/(\d+)(?:/(\w+))?", Echo).ok().unwrap();
    match router.match_route("GET", "/items/5") {
        Ok((_, params)) => assert_eq!(params, vec!["5".to_string(), String::new()]),
        Err(_) => panic!("no match"),
    }
    match router.match_route("GET", "/items/5/red") {
        Ok((_, params)) => assert_eq!(params, vec!["5".to_string(), "red".to_string()]),
        Err(_) => panic!("no match"),
    }
}

#[test]
fn handler_receives_parameters() {
    let mut router = Router::new();
    router.put(r"/(\w+)/(\d+)", Echo).ok().unwrap();
    let rsp = router.handle("PUT", "/users/9").ok().unwrap();
    assert_eq!(body_of(&rsp), "users,9");
}

#[test]
fn any_registers_each_method() {
    let mut router = Router::new();
    assert!(router.any(&["GET", "POST"], "/both", Canned("both")).is_ok());
    assert!(router.match_route("GET", "/both").is_ok());
    assert!(router.match_route("POST", "/both").is_ok());
    assert!(matches!(router.match_route("PATCH", "/both"), Err(RouterError::MethodNotAllowed(_))));
    assert!(matches!(
        router.any(&["DELETE"], "(", Canned("bad")),
        Err(RouterError::InvalidPattern(_))
    ));
    assert!(matches!(router.match_route("DELETE", "/x"), Err(RouterError::MethodNotAllowed(_))));
}

#[test]
fn each_convenience_method_registers_its_verb() {
    let mut router = Router::new();
    router.post("/p", Canned("post")).ok().unwrap();
    router.delete("/d", Canned("delete")).ok().unwrap();
    router.patch("/pa", Canned("patch")).ok().unwrap();
    router.head("/h", Canned("head")).ok().unwrap();
    router.options("/o", Canned("options")).ok().unwrap();
    for (m, p, name) in [
        ("POST", "/p", "post"),
        ("DELETE", "/d", "delete"),
        ("PATCH", "/pa", "patch"),
        ("HEAD", "/h", "head"),
        ("OPTIONS", "/o", "options"),
    ] {
        match router.match_route(m, p) {
            Ok((h, _)) => assert_eq!(h.0, name),
            Err(_) => panic!("no match"),
        }
    }
}

#[test]
fn fixed_status_replaces_the_handlers() {
    let mut router = Router::new();
    router.get_with_status("/new", 201, Canned("made")).ok().unwrap();
    let rsp = router.handle("GET", "/new").ok().unwrap();
    assert!(wire(&rsp).starts_with("HTTP/1.1 201 Created\r\n"));
    assert_eq!(body_of(&rsp), "made");
}

#[test]
fn service_writes_wire_bytes() {
    let mut router = Router::new();
    router.get("/users", Canned(USERS)).ok().unwrap();
    let mut service = ApiService::new(Arc::new(router));
    let mut buf = BytesMut::new();
    service.call("GET", "/users", b"D", &mut buf);
    let text = String::from_utf8(buf.to_vec()).unwrap();
    assert!(text.starts_with("HTTP/1.1 200 OK\r\nServer: M\r\nDate: D\r\n"));
    assert!(text.ends_with(USERS));
    buf.clear();
    service.call("DELETE", "/users", b"D", &mut buf);
    let text = String::from_utf8(buf.to_vec()).unwrap();
    assert_eq!(
        text,
        "HTTP/1.1 405 Method Not Allowed\r\nServer: M\r\nDate: D\r\nContent-Length: 31\r\nContent-Type: application/json\r\n\r\n{\"error\": \"Method Not Allowed\"}"
    );
}

#[test]
fn service_shares_its_context() {
    let router: Router<Echo> = Router::new();
    let service = ApiService::with_context(Arc::new(router), Arc::new(vec![1u32, 2, 3]));
    assert_eq!(*service.get_context(), vec![1, 2, 3]);
}

#[test]
fn factory_services_share_routes_and_context() {
    let mut router = Router::new();
    router.get("/users", Canned(USERS)).ok().unwrap();
    let factory = karics_core::service::ServiceFactory::new(Arc::new(router), Arc::new(5u8));
    let mut first = factory.new_service(0);
    let second = factory.new_service(1);
    assert_eq!(*first.get_context(), 5);
    assert_eq!(*second.get_context(), 5);
    let mut buf = BytesMut::new();
    first.call("GET", "/users", b"D", &mut buf);
    assert!(buf.ends_with(USERS.as_bytes()));
}

#[test]
fn registrations_chain() {
    let mut router = Router::new();
    let chained = router
        .get("/a", Canned("a"))
        .and_then(|r| r.post("/b", Canned("b")))
        .and_then(|r| r.route("PUT", "/c", MatchType::Exact, Canned("c")));
    assert!(chained.is_ok());
    assert!(router.match_route("GET", "/a").is_ok());
    assert!(router.match_route("POST", "/b").is_ok());
    assert!(router.match_route("PUT", "/c").is_ok());
}

struct Teapot;

impl Handler for Teapot {
    fn invoke(&self, _params: Vec<String>) -> Response {
        Response::builder().status(799).body(b"?".to_vec())
    }
}

#[test]
fn json_handler_serves_its_body_through_the_service() {
    let mut router = Router::new();
    router.get("/users", karics_core::router::JsonHandler::new(USERS)).ok().unwrap();
    let mut service = ApiService::new(Arc::new(router));
    let mut buf = BytesMut::new();
    service.call("GET", "/users", b"D", &mut buf);
    let expected = format!(
        "HTTP/1.1 200 OK\r\nServer: M\r\nDate: D\r\nContent-Length: {}\r\nContent-Type: application/json\r\n\r\n{}",
        USERS.len(),
        USERS
    );
    assert_eq!(String::from_utf8(buf.to_vec()).unwrap(), expected);
}

#[test]
fn service_writes_unknown_status_reason() {
    let mut router = Router::new();
    router.get("/tea", Teapot).ok().unwrap();
    let mut service = ApiService::new(Arc::new(router));
    let mut buf = BytesMut::new();
    service.call("GET", "/tea", b"D", &mut buf);
    let text = String::from_utf8(buf.to_vec()).unwrap();
    assert!(text.starts_with("HTTP/1.1 799 Unknown Status Code\r\n"));
    assert!(text.ends_with("\r\n\r\n?"));
}

#[test]
fn service_answers_empty_path_with_bad_request() {
    let mut router = Router::new();
    router.get("/a", Echo).ok().unwrap();
    let mut service = ApiService::new(Arc::new(router));
    let mut buf = BytesMut::new();
    service.call("GET", "", b"D", &mut buf);
    let text = String::from_utf8(buf.to_vec()).unwrap();
    assert!(text.starts_with("HTTP/1.1 400 Bad Request\r\n"));
    assert!(text.ends_with("{\"error\": \"Bad Request\"}"));
}
