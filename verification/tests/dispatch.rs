//! Tests for route matching, parameter capture and the dispatch decision
//! of the connection handler.
use florence::Dispatch;
use florence::Florence;
use florence::FlorenceRequest;
use florence::FlorenceResponse;
use florence::HttpMethod;
use florence::Response;
use florence::Route;
use florence::Router;
use florence::match_route;
use florence::parse_request;
use florence::serialize_response;

#[test]
fn get_routes() {
    let mut f = Florence::new();
    f.get("/".to_string());
    let input = "GET / HTTP/1.1\r\n";
    let mut raw = String::from(input);
    while raw.len() < 1024 {
        raw.push('\0');
    }
    match f.handle_request(raw) {
        Dispatch::Invoke { route_index, request: _, route_match: _ } => {
            assert_eq!(route_index, 0);
            let mut res = Response::new();
            res.set_status(200);
            res.set_body("Hello /!".to_string());
            let response = serialize_response(&res);
            let expected_contents = "Hello /!".to_string();
            let expected_response =
                format!("HTTP/1.1 200 OK\r\nContent-Length: 8\r\n\r\n{}", expected_contents);
            assert!(response.as_bytes().starts_with(expected_response.as_bytes()));
        }
        _ => panic!("expected the registered route to be dispatched"),
    }
}

#[test]
fn literal_route_match() {
    let mut f = Florence::new();
    f.get("/".to_string());
    match f.handle_request("GET / HTTP/1.1\r\n\r\n".to_string()) {
        Dispatch::Invoke { route_index, request: _, route_match: _ } => {
            assert_eq!(route_index, 0);
            let mut res = Response::new();
            res.set_status(200);
            res.set_body("Hello /!".to_string());
            assert_eq!(
                serialize_response(&res).as_str(),
                "HTTP/1.1 200 OK\r\nContent-Length: 8\r\n\r\nHello /!"
            );
        }
        _ => panic!("expected the registered route to be dispatched"),
    }
}

#[test]
fn parameter_capture() {
    let route = Route::new(HttpMethod::GET, "/foo/:id".to_string());
    let req = parse_request("GET /foo/3 HTTP/1.1\r\n\r\n".to_string()).unwrap();
    let m = match_route(&req, &route).unwrap();
    assert_eq!(m.params().get("id").unwrap().as_str(), "3");

    let no_segment = parse_request("GET /foo HTTP/1.1\r\n\r\n".to_string()).unwrap();
    assert!(match_route(&no_segment, &route).is_none());

    let empty_segment = parse_request("GET /foo/ HTTP/1.1\r\n\r\n".to_string()).unwrap();
    assert!(match_route(&empty_segment, &route).is_none());
}

#[test]
fn method_must_match() {
    let route = Route::new(HttpMethod::POST, "/foo".to_string());
    let req = parse_request("GET /foo HTTP/1.1\r\n\r\n".to_string()).unwrap();
    assert!(match_route(&req, &route).is_none());
}

#[test]
fn literal_star_is_not_a_wildcard() {
    let route = Route::new(HttpMethod::GET, "/foo/*blah".to_string());
    let exact = parse_request("GET /foo/*blah HTTP/1.1\r\n\r\n".to_string()).unwrap();
    assert!(match_route(&exact, &route).is_some());

    let other = parse_request("GET /foo/anything HTTP/1.1\r\n\r\n".to_string()).unwrap();
    assert!(match_route(&other, &route).is_none());
}

#[test]
fn middle_star_matches_one_segment() {
    let route = Route::new(HttpMethod::GET, "/foo/*/bar".to_string());
    let m = parse_request("GET /foo/anything/bar HTTP/1.1\r\n\r\n".to_string()).unwrap();
    assert!(match_route(&m, &route).is_some());

    let too_long = parse_request("GET /foo/a/b/bar HTTP/1.1\r\n\r\n".to_string()).unwrap();
    assert!(match_route(&too_long, &route).is_none());
}

#[test]
fn trailing_star_matches_remainder() {
    let route = Route::new(HttpMethod::GET, "/a/*".to_string());
    let one = parse_request("GET /a/b HTTP/1.1\r\n\r\n".to_string()).unwrap();
    assert!(match_route(&one, &route).is_some());

    let many = parse_request("GET /a/b/c/d HTTP/1.1\r\n\r\n".to_string()).unwrap();
    assert!(match_route(&many, &route).is_some());

    let none = parse_request("GET /a HTTP/1.1\r\n\r\n".to_string()).unwrap();
    assert!(match_route(&none, &route).is_none());
}

#[test]
fn no_match_fallback() {
    let mut f = Florence::new();
    f.get("/x".to_string());
    match f.handle_request("GET /y HTTP/1.1\r\n\r\n".to_string()) {
        Dispatch::Respond(s) => {
            assert!(s.starts_with("HTTP/1.1 404"));
            assert_eq!(s.as_str(), "HTTP/1.1 404 Not Found\r\nContent-Length: 9\r\n\r\nNot found");
        }
        _ => panic!("expected the fixed not-found reply"),
    }
}

#[test]
fn malformed_request_yields_bad_request_reply() {
    let f = Florence::new();
    match f.handle_request("GET / HTTP/1.1\r\nBadHeaderLine\r\n\r\n".to_string()) {
        Dispatch::Respond(s) => {
            assert!(s.starts_with("HTTP/1.1 400"));
            assert_eq!(
                s.as_str(),
                "HTTP/1.1 400 Bad Request\r\nContent-Length: 29\r\n\r\nInvalid header: BadHeaderLine"
            );
        }
        _ => panic!("expected a bad-request reply"),
    }
}

#[test]
fn first_match_wins() {
    let mut f = Florence::new();
    f.get("/foo/:id".to_string());
    f.get("/foo/3".to_string());
    match f.handle_request("GET /foo/3 HTTP/1.1\r\n\r\n".to_string()) {
        Dispatch::Invoke { route_index, request: _, route_match } => {
            assert_eq!(route_index, 0);
            assert_eq!(route_match.route().uri().as_str(), "/foo/:id");
            assert_eq!(route_match.params().get("id").unwrap().as_str(), "3");
        }
        _ => panic!("expected the earlier route to be dispatched"),
    }
}

#[test]
fn dispatch_hands_back_the_parsed_request() {
    let mut f = Florence::new();
    f.get("/foo/:id".to_string());
    match f.handle_request("GET /foo/42 HTTP/1.1\r\nHost: h\r\n\r\nhello".to_string()) {
        Dispatch::Invoke { route_index: _, request, route_match } => {
            assert_eq!(*request.get_method(), HttpMethod::GET);
            assert_eq!(request.uri().as_str(), "/foo/42");
            assert_eq!(request.headers().get("Host").unwrap().as_str(), "h");
            assert_eq!(request.body().as_str(), "hello");
            assert_eq!(route_match.params().get("id").unwrap().as_str(), "42");
        }
        _ => panic!("expected a dispatch"),
    }
}
