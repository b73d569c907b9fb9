use onionws::http;
use onionws::urlinfo;

fn parse_header_wrapper(header: &str, exp: &str) {
    let addr = http::parse_header(header.as_bytes()).unwrap();
    assert_eq!(addr, exp);
}

#[test]
fn parse_header_test() {
    parse_header_wrapper("get http://bing.com/ \r\n\r\n", "bing.com:80");
    parse_header_wrapper("get https://bing.com/ \r\n\r\n", "bing.com:443");
    parse_header_wrapper("get http://bing.com:123/ \r\n\r\n", "bing.com:123");
    parse_header_wrapper("get https://bing.com:123/ \r\n\r\n", "bing.com:123");
    parse_header_wrapper("get bing.com:123 \r\n\r\n", "bing.com:123");
    parse_header_wrapper("get bing.com \r\n\r\n", "bing.com");
}

#[test]
fn get_addr_test() {
    get_addr_wraper("https://bing.com/", "bing.com:443");
    get_addr_wraper("https://bing.com:123/", "bing.com:123");
    get_addr_wraper("http://bing.com", "bing.com:80");
    get_addr_wraper("http://bing.com:123", "bing.com:123");
}

fn get_addr_wraper(url: &str, exp: &str) {
    let addr = urlinfo::get_addr(url).unwrap();
    assert_eq!(addr, exp);
}

#[test]
fn http_target_vectors() {
    parse_header_wrapper("GET http://bing.com/ HTTP/1.1\r\n\r\n", "bing.com:80");
    parse_header_wrapper("CONNECT bing.com:443 HTTP/1.1\r\n\r\n", "bing.com:443");
    parse_header_wrapper("GET https://bing.com:123/ HTTP/1.1\r\n\r\n", "bing.com:123");
}

#[test]
fn ws_schemes_have_defaults() {
    get_addr_wraper("wss://relay.example/", "relay.example:443");
    get_addr_wraper("ws://relay.example/", "relay.example:80");
}

#[test]
fn incomplete_header_is_refused() {
    assert!(http::parse_header(b"GET http://bing.com/ HTTP/1.1\r\n").is_none());
    assert!(http::parse_header(b"").is_none());
    assert!(urlinfo::get_addr("bing.com").is_none());
}
