use minihttp::builder::RequestKind;
use minihttp::error::Error;
use minihttp::parse::parse_head;
use minihttp::parse::parse_u16_dec;
use minihttp::parse::utf8_check;
use minihttp::parse::slice_until_byte;
use minihttp::reader::accumulate_chunk;
use minihttp::reader::READ_CHUNK;
use minihttp::request::Request;

fn json_object(key: &str, value: serde_json::Value) -> serde_json::Value {
    let mut map = serde_json::Map::new();
    map.insert(key.to_string(), value);
    serde_json::Value::Object(map)
}

#[test]
fn new_parses_location_components() {
    let req = Request::new("http://localhost:8000/test").unwrap();
    assert_eq!(req.url.scheme, "http");
    assert_eq!(req.url.host.as_deref(), Some("localhost"));
    assert_eq!(req.url.port, Some(8000));
    assert_eq!(req.url.path, "/test");
    assert_eq!(req.kind, RequestKind::Get);
}

#[test]
fn new_rejects_malformed_url() {
    match Request::new("not a url") {
        Err(Error::ParseUrl) => {}
        other => panic!("expected ParseUrl, got {:?}", other.map(|_| ())),
    }
}

#[test]
fn path_defaults_to_slash() {
    let req = Request::new("http://localhost:8000").unwrap();
    assert_eq!(req.url.path, "/");
}

#[test]
fn effective_port_uses_explicit_port() {
    let req = Request::new("http://localhost:9999/x").unwrap();
    assert_eq!(req.url.effective_port(), 9999);
}

#[test]
fn effective_port_defaults_to_8000() {
    let req = Request::new("foo://localhost/x").unwrap();
    assert_eq!(req.url.port, None);
    assert_eq!(req.url.effective_port(), 8000);
}

#[test]
fn get_request_bytes_exact() {
    let req = Request::new("http://localhost:8000/test").unwrap();
    let bytes = req.request_bytes(None).unwrap();
    let expected: &[u8] = b"GET /test HTTP/1.1\r\n\
Host: localhost\r\n\
Content-Type: application/json\r\n\
Content-Length: 0\r\n\r\n";
    assert_eq!(bytes.as_slice(), expected);
}

#[test]
fn host_header_mirrors_host_not_port() {
    let with_port = Request::new("http://localhost:9999/test").unwrap();
    let without_port = Request::new("http://localhost:8000/test").unwrap();
    let a = with_port.request_bytes(None).unwrap();
    let b = without_port.request_bytes(None).unwrap();
    assert_eq!(a, b);
    assert_ne!(with_port.url.effective_port(), without_port.url.effective_port());
}

#[test]
fn post_request_bytes_content_length_13() {
    let mut req = Request::new("http://localhost:8000/test").unwrap();
    req.make_post();
    assert_eq!(req.kind, RequestKind::Post);
    let payload = json_object("test", serde_json::Value::String("aa".to_string()));
    let bytes = req.request_bytes(Some(&payload)).unwrap();
    let expected: &[u8] = b"POST /test HTTP/1.1\r\n\
Host: localhost\r\n\
Content-Type: application/json\r\n\
Content-Length: 13\r\n\r\n\
{\"test\":\"aa\"}";
    assert_eq!(bytes.as_slice(), expected);
}

#[test]
fn missing_host_is_rejected() {
    let req = Request::new("unix:/run/foo.socket").unwrap();
    assert_eq!(req.url.host, None);
    match req.request_bytes(None) {
        Err(Error::NoHostString) => {}
        other => panic!("expected NoHostString, got {:?}", other.map(|_| ())),
    }
}

#[test]
fn json_codec_round_trips() {
    let payload = json_object("a", serde_json::Value::from(1));
    let encoded = serde_json::to_vec(&payload).unwrap();
    let decoded: serde_json::Value = serde_json::from_slice(&encoded).unwrap();
    assert_eq!(decoded, payload);
}

#[test]
fn post_body_round_trips_through_parser() {
    let mut req = Request::new("http://localhost:8000/test").unwrap();
    req.make_post();
    let payload = json_object("test", serde_json::Value::String("aa".to_string()));
    let request = req.request_bytes(Some(&payload)).unwrap();
    let header_end = request.windows(4).position(|w| w == b"\r\n\r\n").unwrap();
    let body = &request[header_end + 4..];
    let mut response: Vec<u8> = b"HTTP/1.1 200 OK\r\nHost: x\r\n\r\n".to_vec();
    response.extend_from_slice(body);
    let parsed = req.parse_response(response).unwrap();
    assert_eq!(parsed.status, 200);
    assert_eq!(parsed.body, payload);
}

#[test]
fn parse_response_ok() {
    let req = Request::new("http://localhost:8000/test").unwrap();
    let data = b"HTTP/1.1 200 OK\r\nHost: x\r\n\r\n{\"a\":1}".to_vec();
    let resp = req.parse_response(data).unwrap();
    assert_eq!(resp.status, 200);
    assert_eq!(resp.body, json_object("a", serde_json::Value::from(1)));
}

#[test]
fn parse_response_wrong_version_fails() {
    let req = Request::new("http://localhost:8000/test").unwrap();
    let data = b"HTTP/1.0 200 OK\r\n\r\n{}".to_vec();
    match req.parse_response(data) {
        Err(Error::HttpParse) => {}
        other => panic!("expected HttpParse, got {:?}", other.map(|_| ())),
    }
}

#[test]
fn parse_response_non_numeric_status_fails() {
    let req = Request::new("http://localhost:8000/test").unwrap();
    let data = b"HTTP/1.1 OK \r\n\r\n{}".to_vec();
    match req.parse_response(data) {
        Err(Error::ParseInt) => {}
        other => panic!("expected ParseInt, got {:?}", other.map(|_| ())),
    }
}

#[test]
fn parse_response_non_utf8_status_fails() {
    let req = Request::new("http://localhost:8000/test").unwrap();
    let data = b"HTTP/1.1 \xff\xfe \r\n\r\n{}".to_vec();
    match req.parse_response(data) {
        Err(Error::Utf8) => {}
        other => panic!("expected Utf8, got {:?}", other.map(|_| ())),
    }
}

#[test]
fn parse_response_status_overflow_fails() {
    let req = Request::new("http://localhost:8000/test").unwrap();
    let data = b"HTTP/1.1 65536 \r\n\r\n{}".to_vec();
    match req.parse_response(data) {
        Err(Error::ParseInt) => {}
        other => panic!("expected ParseInt, got {:?}", other.map(|_| ())),
    }
}

#[test]
fn parse_response_without_blank_line_fails() {
    let req = Request::new("http://localhost:8000/test").unwrap();
    let data = b"HTTP/1.1 200 OK\r\nHost: x\r\n{}".to_vec();
    match req.parse_response(data) {
        Err(Error::HttpParse) => {}
        other => panic!("expected HttpParse, got {:?}", other.map(|_| ())),
    }
}

#[test]
fn parse_response_malformed_body_fails() {
    let req = Request::new("http://localhost:8000/test").unwrap();
    let data = b"HTTP/1.1 200 OK\r\nHost: x\r\n\r\nnot json".to_vec();
    match req.parse_response(data) {
        Err(Error::Serialize) => {}
        other => panic!("expected Serialize, got {:?}", other.map(|_| ())),
    }
}

#[test]
fn parse_head_returns_status_and_body() {
    let data: &[u8] = b"HTTP/1.1 404 Not Found\r\nX-One: y\r\nX-Two: z\r\n\r\nbody";
    let (status, body) = parse_head(data).unwrap();
    assert_eq!(status, 404);
    assert_eq!(body, &b"body"[..]);
}

#[test]
fn parse_u16_dec_accepts_bounds() {
    assert_eq!(parse_u16_dec(b"0"), Some(0));
    assert_eq!(parse_u16_dec(b"200"), Some(200));
    assert_eq!(parse_u16_dec(b"65535"), Some(65535));
}

#[test]
fn parse_u16_dec_rejects_bad_tokens() {
    assert_eq!(parse_u16_dec(b""), None);
    assert_eq!(parse_u16_dec(b"65536"), None);
    assert_eq!(parse_u16_dec(b"12a"), None);
    assert_eq!(parse_u16_dec(b"+1"), None);
}

#[test]
fn slice_until_byte_splits_and_consumes() {
    let (before, after) = slice_until_byte(b"abc def", b' ');
    assert_eq!(before, &b"abc"[..]);
    assert_eq!(after, &b"def"[..]);
}

#[test]
fn slice_until_byte_absent_delimiter() {
    let (before, after) = slice_until_byte(b"abc", b'\n');
    assert_eq!(before, &b"abc"[..]);
    assert_eq!(after, &b""[..]);
}

#[test]
fn as_str_names_the_methods() {
    assert_eq!(RequestKind::Get.as_str(), "GET");
    assert_eq!(RequestKind::Post.as_str(), "POST");
}

#[test]
fn describe_names_the_errors() {
    assert_eq!(Error::Serialize.describe(), "Serialize error");
    assert_eq!(Error::Resolve.describe(), "Resolve error");
    assert_eq!(Error::Utf8.describe(), "Utf8 error");
    assert_eq!(Error::ParseInt.describe(), "ParseInt error");
    assert_eq!(Error::ParseUrl.describe(), "ParseUrl error");
    assert_eq!(Error::NoHostString.describe(), "No host string");
    assert_eq!(Error::HttpParse.describe(), "Http parse error");
}

#[test]
fn accumulate_chunk_appends_and_decides() {
    let mut data: Vec<u8> = vec![1, 2];
    let full = vec![7u8; READ_CHUNK];
    assert!(accumulate_chunk(&mut data, &full));
    let short = [8u8, 9u8];
    assert!(!accumulate_chunk(&mut data, &short));
    assert_eq!(data.len(), 2 + READ_CHUNK + 2);
    assert_eq!(&data[..2], &[1, 2]);
    assert_eq!(&data[2 + READ_CHUNK..], &[8, 9]);
}

#[test]
fn utf8_check_accepts_valid_encodings() {
    assert!(utf8_check(b""));
    assert!(utf8_check(b"plain ascii"));
    assert!(utf8_check("héllo €uro 😀".as_bytes()));
}

#[test]
fn utf8_check_rejects_invalid_encodings() {
    assert!(!utf8_check(&[0xff]));
    assert!(!utf8_check(&[0x80]));
    assert!(!utf8_check(&[0xc3]));
    assert!(!utf8_check(&[0xc0, 0x80]));
    assert!(!utf8_check(&[0xed, 0xa0, 0x80]));
    assert!(!utf8_check(&[0xf0, 0x28, 0x8c, 0x28]));
}
