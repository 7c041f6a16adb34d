use guest_cache::http::{request_for, response_body, response_status};
use guest_cache::ttl::FileCache;
use guest_cache::url::UrlParts;

#[test]
fn request_for_a_plain_address() {
    let cache = FileCache::new("cache.json");
    let get = cache.manual_get("http://localhost:8888").unwrap();
    assert_eq!(get.address, "localhost:8888");
    assert_eq!(get.request, "GET / HTTP/1.1\r\nHost: localhost\r\nConnection: close\r\n\r\n");
}

#[test]
fn request_names_path_and_query() {
    let cache = FileCache::new("cache.json");
    let get = cache.manual_get("http://example.com/a/b.csv?x=1&y=two#frag").unwrap();
    assert_eq!(get.address, "example.com:80");
    assert_eq!(get.request, "GET /a/b.csv?x=1&y=two HTTP/1.1\r\nHost: example.com\r\nConnection: close\r\n\r\n");
}

#[test]
fn request_uses_the_default_port_of_the_scheme() {
    let cache = FileCache::new("cache.json");
    assert_eq!(cache.manual_get("https://example.com/").unwrap().address, "example.com:443");
    assert_eq!(cache.manual_get("ftp://example.com/").unwrap().address, "example.com:21");
    assert_eq!(cache.manual_get("http://example.com:65535/").unwrap().address, "example.com:65535");
    assert_eq!(cache.manual_get("http://example.com:7/").unwrap().address, "example.com:7");
    assert_eq!(cache.manual_get("http://example.com:1000/").unwrap().address, "example.com:1000");
}

#[test]
fn request_percent_encodes_the_path() {
    let cache = FileCache::new("cache.json");
    let get = cache.manual_get("http://example.com/a b").unwrap();
    assert_eq!(get.request, "GET /a%20b HTTP/1.1\r\nHost: example.com\r\nConnection: close\r\n\r\n");
}

#[test]
fn no_request_for_what_is_no_address() {
    let cache = FileCache::new("cache.json");
    assert!(cache.manual_get("").is_none());
    assert!(cache.manual_get("not an address").is_none());
    assert!(cache.manual_get("/relative/path").is_none());
    assert!(cache.manual_get("http://").is_none());
}

#[test]
fn no_request_without_host_or_port() {
    let cache = FileCache::new("cache.json");
    assert!(cache.manual_get("mailto:someone@example.com").is_none());
    assert!(cache.manual_get("data:text/plain,hello").is_none());
    assert!(cache.manual_get("foo://example.com/path").is_none());
    assert_eq!(cache.manual_get("foo://example.com:99/path").unwrap().address, "example.com:99");
}

#[test]
fn request_for_given_parts() {
    let parts = UrlParts {
        host: Some(String::from("h")),
        port: Some(8080),
        path: String::from("/p"),
        query: Some(String::from("q=1")),
    };
    let get = request_for(&parts).unwrap();
    assert_eq!(get.address, "h:8080");
    assert_eq!(get.request, "GET /p?q=1 HTTP/1.1\r\nHost: h\r\nConnection: close\r\n\r\n");
}

#[test]
fn request_for_parts_with_an_empty_path() {
    let parts = UrlParts { host: Some(String::from("h")), port: Some(0), path: String::new(), query: None };
    let get = request_for(&parts).unwrap();
    assert_eq!(get.address, "h:0");
    assert_eq!(get.request, "GET / HTTP/1.1\r\nHost: h\r\nConnection: close\r\n\r\n");
}

#[test]
fn request_for_parts_with_an_empty_path_and_a_query() {
    let parts = UrlParts {
        host: Some(String::from("h")),
        port: Some(10),
        path: String::new(),
        query: Some(String::new()),
    };
    let get = request_for(&parts).unwrap();
    assert_eq!(get.address, "h:10");
    assert_eq!(get.request, "GET ? HTTP/1.1\r\nHost: h\r\nConnection: close\r\n\r\n");
}

#[test]
fn request_for_parts_without_host_or_port_is_none() {
    let no_host = UrlParts { host: None, port: Some(80), path: String::from("/"), query: None };
    let no_port = UrlParts { host: Some(String::from("h")), port: None, path: String::from("/"), query: None };
    assert!(request_for(&no_host).is_none());
    assert!(request_for(&no_port).is_none());
}

#[test]
fn body_follows_the_first_blank_line() {
    let reply = b"HTTP/1.1 200 OK\r\nContent-Type: text/plain\r\n\r\nhello\r\n\r\nworld".to_vec();
    assert_eq!(response_body(reply), Some(String::from("hello\r\n\r\nworld")));
}

#[test]
fn body_may_be_empty() {
    assert_eq!(response_body(b"HTTP/1.1 204 No Content\r\n\r\n".to_vec()), Some(String::new()));
    assert_eq!(response_body(b"\r\n\r\n".to_vec()), Some(String::new()));
}

#[test]
fn reply_without_headers_is_all_body() {
    assert_eq!(response_body(b"just text\r\nmore\n\r\n".to_vec()), Some(String::from("just text\r\nmore\n\r\n")));
    assert_eq!(response_body(Vec::new()), Some(String::new()));
    assert_eq!(response_body(b"\r\n\r".to_vec()), Some(String::from("\r\n\r")));
}

#[test]
fn body_keeps_characters_of_several_bytes() {
    let reply = "H\u{e9}: x\r\n\r\n\u{e9}t\u{e9} \u{20ac} \u{1f600}".as_bytes().to_vec();
    assert_eq!(response_body(reply), Some(String::from("\u{e9}t\u{e9} \u{20ac} \u{1f600}")));
}

#[test]
fn reply_that_is_not_utf8_has_no_body() {
    assert_eq!(response_body(vec![0xff, 0xfe]), None);
    let mut reply = b"HTTP/1.1 200 OK\r\n\r\n".to_vec();
    reply.push(0xc3);
    assert_eq!(response_body(reply), None);
    let mut bad_header = vec![0x80];
    bad_header.extend_from_slice(b"\r\n\r\nbody");
    assert_eq!(response_body(bad_header), None);
}

#[test]
fn reply_with_a_status_of_no_success_has_no_body() {
    let not_found = b"HTTP/1.1 404 Not Found\r\nContent-Type: text/html\r\n\r\n<h1>gone</h1>".to_vec();
    assert_eq!(response_body(not_found), None);
    assert_eq!(response_body(b"HTTP/1.1 500 Internal Server Error\r\n\r\noops".to_vec()), None);
    assert_eq!(response_body(b"HTTP/1.0 301 Moved Permanently\r\nLocation: /x\r\n\r\n".to_vec()), None);
    assert_eq!(response_body(b"HTTP/1.1 199 Odd\r\n\r\nbody".to_vec()), None);
    assert_eq!(response_body(b"HTTP/1.1 300 Multiple Choices\r\n\r\nbody".to_vec()), None);
    assert_eq!(response_body(b"HTTP/1.1 100 Continue\r\n\r\n".to_vec()), None);
}

#[test]
fn reply_with_a_status_of_success_has_its_body() {
    assert_eq!(response_body(b"HTTP/1.1 200 OK\r\n\r\nbody".to_vec()), Some(String::from("body")));
    assert_eq!(response_body(b"HTTP/1.1 299 Edge\r\n\r\nbody".to_vec()), Some(String::from("body")));
    assert_eq!(response_body(b"HTTP/1.1 201 Created\r\nX: y\r\n\r\n{}".to_vec()), Some(String::from("{}")));
    assert_eq!(response_body(b"HTTP/2 204\r\n\r\n".to_vec()), Some(String::new()));
    assert_eq!(response_body(b"HTTP/1.1 200".to_vec()), Some(String::from("HTTP/1.1 200")));
}

#[test]
fn reply_whose_status_line_has_no_code_has_no_body() {
    assert_eq!(response_body(b"HTTP/1.1\r\n\r\nbody".to_vec()), None);
    assert_eq!(response_body(b"HTTP/1.1 OK\r\n\r\nbody".to_vec()), None);
    assert_eq!(response_body(b"HTTP/1.1 20\r\n\r\nbody".to_vec()), None);
    assert_eq!(response_body(b"HTTP/1.1 2000 OK\r\n\r\nbody".to_vec()), None);
    assert_eq!(response_body(b"HTTP/1.1  200 OK\r\n\r\nbody".to_vec()), None);
    assert_eq!(response_body(b"HTTP/1.1\r\nX: 200 \r\n\r\nbody".to_vec()), None);
    assert_eq!(response_body(b"HTTP/".to_vec()), None);
}

#[test]
fn reply_without_a_status_line_keeps_its_body_whatever_it_says() {
    assert_eq!(response_body(b"error 404 here\r\n\r\nbody".to_vec()), Some(String::from("body")));
    assert_eq!(response_body(b"http/1.1 404 lower case\r\n\r\nbody".to_vec()), Some(String::from("body")));
    assert_eq!(response_body(b" HTTP/1.1 404\r\n\r\nbody".to_vec()), Some(String::from("body")));
    assert_eq!(response_body(b"HTTP".to_vec()), Some(String::from("HTTP")));
}

#[test]
fn status_is_read_from_the_status_line() {
    assert_eq!(response_status(&b"HTTP/1.1 200 OK\r\n\r\n".to_vec()), Some(200));
    assert_eq!(response_status(&b"HTTP/1.1 404 Not Found\r\n\r\n".to_vec()), Some(404));
    assert_eq!(response_status(&b"HTTP/1.0 999".to_vec()), Some(999));
    assert_eq!(response_status(&b"HTTP/1.1 000 x".to_vec()), Some(0));
    assert_eq!(response_status(&b"HTTP/1.1 503\r\n".to_vec()), Some(503));
    assert_eq!(response_status(&b"HTTP/1.1 2000 OK".to_vec()), None);
    assert_eq!(response_status(&b"HTTP/1.1 20x OK".to_vec()), None);
    assert_eq!(response_status(&b"HTTP/1.1\n 200".to_vec()), None);
    assert_eq!(response_status(&b"HTTP/1.1 ".to_vec()), None);
    assert_eq!(response_status(&b"200 OK".to_vec()), None);
    assert_eq!(response_status(&Vec::new()), None);
    assert_eq!(response_status(&vec![72, 84, 84, 80, 47, 32, 0xff, 0xfe, 0xfd]), None);
}
