use fazuh_utils::utils::{client_ip_from_values, get_client_ip};
use http::HeaderMap;
use http::HeaderValue;

#[test]
fn extracts_ip_from_x_forwarded_for_header() {
    let mut headers = HeaderMap::new();
    headers.insert(
        "X-Forwarded-For",
        HeaderValue::from_static("1.2.3.4, 5.6.7.8"),
    );

    let result = get_client_ip(&headers);

    assert_eq!(result, "1.2.3.4");
}

#[test]
fn extracts_ip_from_x_real_ip_header() {
    let mut headers = HeaderMap::new();
    headers.insert("X-Real-Ip", HeaderValue::from_static("9.8.7.6"));

    let result = get_client_ip(&headers);

    assert_eq!(result, "9.8.7.6");
}

#[test]
fn prefers_x_forwarded_for_over_x_real_ip() {
    let mut headers = HeaderMap::new();
    headers.insert("X-Forwarded-For", HeaderValue::from_static("1.1.1.1"));
    headers.insert("X-Real-Ip", HeaderValue::from_static("2.2.2.2"));

    let result = get_client_ip(&headers);

    assert_eq!(result, "1.1.1.1");
}

#[test]
fn returns_unknown_when_no_ip_headers_present() {
    let headers = HeaderMap::new();

    let result = get_client_ip(&headers);

    assert_eq!(result, "unknown");
}

#[test]
fn trims_whitespace_from_ip_value() {
    let mut headers = HeaderMap::new();
    headers.insert(
        "X-Forwarded-For",
        HeaderValue::from_static("  192.168.1.1  "),
    );

    let result = get_client_ip(&headers);

    assert_eq!(result, "192.168.1.1");
}

#[test]
fn header_names_match_without_regard_to_case() {
    let mut headers = HeaderMap::new();
    headers.insert("x-real-ip", HeaderValue::from_static("\t10.0.0.1 "));
    assert_eq!(get_client_ip(&headers), "10.0.0.1");
}

#[test]
fn first_forwarded_value_is_used() {
    let mut headers = HeaderMap::new();
    headers.append("X-Forwarded-For", HeaderValue::from_static("3.3.3.3"));
    headers.append("X-Forwarded-For", HeaderValue::from_static("4.4.4.4"));
    assert_eq!(get_client_ip(&headers), "3.3.3.3");
}

#[test]
fn non_ascii_forwarded_value_falls_back_to_real_ip() {
    let mut headers = HeaderMap::new();
    headers.insert("X-Forwarded-For", HeaderValue::from_bytes(b"1.2.3.4\xff").unwrap());
    headers.insert("X-Real-Ip", HeaderValue::from_static("5.5.5.5"));
    assert_eq!(get_client_ip(&headers), "5.5.5.5");
}

#[test]
fn empty_first_entry_gives_empty_address() {
    let mut headers = HeaderMap::new();
    headers.insert("X-Forwarded-For", HeaderValue::from_static(" , 6.6.6.6"));
    headers.insert("X-Real-Ip", HeaderValue::from_static("7.7.7.7"));
    assert_eq!(get_client_ip(&headers), "");
}

#[test]
fn client_ip_from_plain_values() {
    assert_eq!(client_ip_from_values(Some(b"a,b".to_vec()), None), "a");
    assert_eq!(client_ip_from_values(None, Some(b" c ".to_vec())), "c");
    assert_eq!(client_ip_from_values(None, None), "unknown");
    assert_eq!(client_ip_from_values(Some(vec![0x7f]), Some(b"d".to_vec())), "d");
}
