//! Tests for the protocol layer: start-line parsing, request parsing,
//! header handling and response serialization.
use florence::Dict;
use florence::FlorenceRequest;
use florence::FlorenceResponse;
use florence::HttpMethod;
use florence::ParseError;
use florence::Request;
use florence::Response;
use florence::parse_request;
use florence::parse_start_line;
use florence::serialize_response;
use florence::string_to_http_method;

#[test]
fn round_trip_start_line() {
    let sl = parse_start_line("GET /index.html HTTP/1.1".to_string()).unwrap();
    assert_eq!(sl.method.as_str(), "GET");
    assert_eq!(sl.uri.as_str(), "/index.html");
    assert_eq!(sl.version.as_str(), "HTTP/1.1");
}

#[test]
fn start_line_extra_tokens_keep_first_three() {
    let sl = parse_start_line("POST /a b c".to_string()).unwrap();
    assert_eq!(sl.method.as_str(), "POST");
    assert_eq!(sl.uri.as_str(), "/a");
    assert_eq!(sl.version.as_str(), "b");
}

#[test]
fn start_line_too_short_is_rejected() {
    let r = parse_start_line("GET /".to_string());
    assert!(matches!(r, Err(ParseError::MalformedStartLine)));
}

#[test]
fn empty_input_is_malformed_start_line() {
    let r = parse_request(String::new());
    assert!(matches!(r, Err(ParseError::MalformedStartLine)));
}

#[test]
fn header_extraction() {
    let req = parse_request("GET / HTTP/1.1\r\nHost: x\r\nX-Foo: bar\r\n\r\nBODY".to_string())
        .unwrap();
    assert_eq!(*req.get_method(), HttpMethod::GET);
    assert_eq!(req.uri().as_str(), "/");
    assert_eq!(req.headers().get("Host").unwrap().as_str(), "x");
    assert_eq!(req.headers().get("X-Foo").unwrap().as_str(), "bar");
    assert_eq!(req.body().as_str(), "BODY");
}

#[test]
fn malformed_header_is_rejected() {
    let r = parse_request("GET / HTTP/1.1\r\nBadHeaderLine\r\n\r\nBODY".to_string());
    match r {
        Err(ParseError::MalformedHeader(line)) => {
            assert_eq!(line.as_str(), "BadHeaderLine");
        }
        _ => panic!("expected a malformed-header error"),
    }
}

#[test]
fn header_with_two_separators_is_rejected() {
    let r = parse_request("GET / HTTP/1.1\r\na: b: c\r\n\r\n".to_string());
    assert!(matches!(r, Err(ParseError::MalformedHeader(_))));
}

#[test]
fn unknown_method_is_rejected() {
    let r = parse_request("FROB / HTTP/1.1\r\n\r\n".to_string());
    match r {
        Err(e) => {
            assert!(matches!(e, ParseError::UnknownMethod));
            assert_eq!(
                e.message().as_str(),
                "Failed to parse HTTP request: Invalid request method"
            );
        }
        _ => panic!("expected an unknown-method error"),
    }
}

#[test]
fn method_token_is_case_insensitive() {
    assert_eq!(string_to_http_method(&"get".to_string()).unwrap(), HttpMethod::GET);
    assert_eq!(string_to_http_method(&"dElEtE".to_string()).unwrap(), HttpMethod::DELETE);
    assert_eq!(
        string_to_http_method(&"FROB".to_string()).unwrap_err().as_str(),
        "Invalid request method"
    );
    let req = parse_request("pAtCh / HTTP/1.1\r\n\r\n".to_string()).unwrap();
    assert_eq!(*req.get_method(), HttpMethod::PATCH);
}

#[test]
fn last_header_occurrence_wins() {
    let req = parse_request("GET / HTTP/1.1\r\nA: 1\r\nA: 2\r\n\r\n".to_string()).unwrap();
    assert_eq!(req.headers().get("A").unwrap().as_str(), "2");
}

#[test]
fn truncated_request_without_blank_line() {
    let req = parse_request("GET / HTTP/1.1\r\nHost: x".to_string()).unwrap();
    assert_eq!(req.headers().get("Host").unwrap().as_str(), "x");
    assert_eq!(req.body().as_str(), "");
}

#[test]
fn body_keeps_inner_crlf_and_loses_nul_padding() {
    let req = parse_request("GET / HTTP/1.1\r\n\r\nline1\r\nline2\0\0".to_string()).unwrap();
    assert_eq!(req.body().as_str(), "line1\r\nline2");
}

#[test]
fn dict_insert_and_lookup() {
    let mut d = Dict::new();
    d.insert("k".to_string(), "v1".to_string());
    d.insert("other".to_string(), "x".to_string());
    d.insert("k".to_string(), "v2".to_string());
    assert_eq!(d.get("k").unwrap().as_str(), "v2");
    assert_eq!(d.get("other").unwrap().as_str(), "x");
    assert!(d.get("absent").is_none());
}

#[test]
fn request_constructed_by_hand() {
    let mut headers = Dict::new();
    headers.insert("Host".to_string(), "h".to_string());
    let req = Request::new(HttpMethod::PUT, "/p".to_string(), "b".to_string(), headers);
    assert_eq!(*req.get_method(), HttpMethod::PUT);
    assert_eq!(req.uri().as_str(), "/p");
    assert_eq!(req.body().as_str(), "b");
    assert_eq!(req.headers().get("Host").unwrap().as_str(), "h");
}

#[test]
fn serialize_default_response() {
    let res = Response::new();
    assert_eq!(res.status_code(), 200);
    assert_eq!(res.body().as_str(), "");
    assert_eq!(
        serialize_response(&res).as_str(),
        "HTTP/1.1 200 OK\r\nContent-Length: 0\r\n\r\n"
    );
}

#[test]
fn serialize_with_status_from_table() {
    let mut res = Response::new();
    res.set_status(201);
    res.set_body("hi".to_string());
    assert_eq!(
        serialize_response(&res).as_str(),
        "HTTP/1.1 201 Created\r\nContent-Length: 2\r\n\r\nhi"
    );
}

#[test]
fn serialize_unknown_status_gets_generic_phrase() {
    let mut res = Response::new();
    res.set_status(599);
    assert_eq!(
        serialize_response(&res).as_str(),
        "HTTP/1.1 599 Unknown\r\nContent-Length: 0\r\n\r\n"
    );
}

#[test]
fn content_length_counts_bytes() {
    let mut res = Response::new();
    res.set_body("0123456789".to_string());
    assert_eq!(
        serialize_response(&res).as_str(),
        "HTTP/1.1 200 OK\r\nContent-Length: 10\r\n\r\n0123456789"
    );
}
