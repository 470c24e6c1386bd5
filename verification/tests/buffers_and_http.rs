use oracle_steam::cbuf::{
    append_bytes, bytes_equal, copy_c_string, copy_prefix, decimal_bytes, hex_bytes, sized_c_copy,
    sized_copy, SizedBytes, SizedCopy,
};
use oracle_steam::http::{method_from_code, HttpMethod, HttpState};
use oracle_steam::lookup::find_first;
use oracle_steam::screenshots::ScreenshotLibrary;
use oracle_steam::strmap::{StrMap, StrSet};

#[test]
fn copy_prefix_truncates_and_keeps_short_input() {
    assert_eq!(copy_prefix(b"abcdef", 3), b"abc".to_vec());
    assert_eq!(copy_prefix(b"ab", 10), b"ab".to_vec());
    assert_eq!(copy_prefix(b"ab", 0), Vec::<u8>::new());
}

#[test]
fn copy_c_string_leaves_room_for_terminator() {
    assert_eq!(copy_c_string(b"hello", 4), b"hel\0".to_vec());
    assert_eq!(copy_c_string(b"hi", 10), b"hi\0".to_vec());
    assert_eq!(copy_c_string(b"hi", 1), b"\0".to_vec());
}

#[test]
fn sized_copies_report_copy_or_refuse() {
    match sized_c_copy(b"abc", false, 0) {
        SizedCopy::SizeReported(n) => assert_eq!(n, 4),
        _ => panic!("expected the size"),
    }
    match sized_c_copy(b"abc", true, 4) {
        SizedCopy::Copied(b, n) => {
            assert_eq!(b, b"abc\0".to_vec());
            assert_eq!(n, 4);
        }
        _ => panic!("expected a copy"),
    }
    assert!(matches!(sized_c_copy(b"abc", true, 3), SizedCopy::TooSmall));
    match sized_copy(b"abc", true, 3) {
        SizedBytes::Copied(b, n) => {
            assert_eq!(b, b"abc".to_vec());
            assert_eq!(n, 3);
        }
        _ => panic!("expected a copy"),
    }
    assert!(matches!(sized_copy(b"abc", true, 2), SizedBytes::TooSmall));
    assert!(matches!(sized_copy(b"abc", false, 0), SizedBytes::SizeReported(3)));
}

#[test]
fn decimal_and_hex_renderings() {
    assert_eq!(decimal_bytes(0), b"0".to_vec());
    assert_eq!(decimal_bytes(76561198000000000), b"76561198000000000".to_vec());
    assert_eq!(hex_bytes(255), b"ff".to_vec());
    assert_eq!(hex_bytes(0xdeadbeef), b"deadbeef".to_vec());
    assert_eq!(hex_bytes(0), b"0".to_vec());
}

#[test]
fn append_and_compare_bytes() {
    let mut v = b"ab".to_vec();
    append_bytes(&mut v, b"cd");
    assert_eq!(v, b"abcd".to_vec());
    assert!(bytes_equal(b"abc", b"abc"));
    assert!(!bytes_equal(b"abc", b"abd"));
    assert!(!bytes_equal(b"abc", b"ab"));
}

#[test]
fn find_first_gives_first_position() {
    let ids = vec![5u64, 7, 5];
    assert_eq!(find_first(&ids, 5), Some(0));
    assert_eq!(find_first(&ids, 7), Some(1));
    assert_eq!(find_first(&ids, 9), None);
}

#[test]
fn str_map_insert_replace_remove() {
    let mut m: StrMap<i32> = StrMap::new();
    m.insert("a".to_string(), 1);
    m.insert("b".to_string(), 2);
    m.insert("a".to_string(), 3);
    assert_eq!(m.len(), 2);
    assert_eq!(m.get(&"a".to_string()), Some(&3));
    assert_eq!(m.remove(&"a".to_string()), Some(3));
    assert!(!m.contains_key(&"a".to_string()));
    assert_eq!(m.key_at(0), Some(&"b".to_string()));
    assert_eq!(m.key_at(1), None);
    m.clear();
    assert_eq!(m.len(), 0);
}

#[test]
fn str_set_keeps_each_text_once() {
    let mut s = StrSet::new();
    s.insert("x".to_string());
    s.insert("x".to_string());
    assert!(s.contains(&"x".to_string()));
    s.remove(&"x".to_string());
    assert!(!s.contains(&"x".to_string()));
}

#[test]
fn http_method_codes() {
    assert!(matches!(method_from_code(0), HttpMethod::Get));
    assert!(matches!(method_from_code(2), HttpMethod::Post));
    assert!(matches!(method_from_code(6), HttpMethod::Patch));
    assert!(matches!(method_from_code(99), HttpMethod::Get));
}

#[test]
fn http_request_lifecycle() {
    let mut http = HttpState::new();
    let h = http.create_request(1, Some("http://example.com"));
    assert_eq!(h, 1);
    assert!(http.has_request(h));
    assert!(http.set_header_value(h, "Accept", "text/plain"));
    assert!(http.set_get_or_post_parameter(h, "q", "1"));
    assert!(!http.set_header_value(99, "Accept", "x"));
    assert_eq!(http.response_body_size(h), Some(0));
    assert!(http.send_request(h));
    let body = b"{\"success\": true}".to_vec();
    assert_eq!(http.response_body_size(h), Some(body.len() as u32));
    assert_eq!(http.response_body_data(h, 100), Some(body.clone()));
    let ct = "Content-Type".to_string();
    assert_eq!(http.response_header_size(h, &ct), Some(16));
    assert_eq!(http.streaming_body_data(h, 2, 7), Some(b"success".to_vec()));
    assert_eq!(http.streaming_body_data(h, 17, 7), None);
    assert_eq!(http.response_header_value(h, &ct, 100), Some(b"application/json\0".to_vec()));
    assert_eq!(http.response_header_size(h, &"X".to_string()), None);
    assert!(http.release_request(h));
    assert!(!http.has_request(h));
    assert!(!http.send_request(h));
}

#[test]
fn http_handles_are_drawn_in_order() {
    let mut http = HttpState::new();
    let a = http.create_request(0, None);
    let c = http.create_cookie_container();
    let b = http.create_request(0, Some("u"));
    assert_eq!((a, c, b), (1, 2, 3));
    assert_eq!(http.next_handle(), 4);
    assert!(http.set_cookie(c, "example.com", "k=v"));
    assert!(http.set_request_cookie_container(b, c));
    assert!(http.release_cookie_container(c));
    assert!(!http.release_cookie_container(c));
}

#[test]
fn http_raw_post_body() {
    let mut http = HttpState::new();
    let h = http.create_request(2, Some("u"));
    assert!(http.set_raw_post_body(h, Some("text/plain"), b"payload"));
    assert!(!http.set_raw_post_body(42, None, b"x"));
}

#[test]
fn screenshots_get_names_and_handles() {
    let mut lib = ScreenshotLibrary::new();
    let a = lib.write_screenshot(640, 480);
    let b = lib.add_screenshot_to_library(None, 10, 10);
    let c = lib.add_vr_screenshot_to_library(Some("vr.png"));
    assert_eq!((a, b, c), (1, 2, 3));
    assert!(lib.has_screenshot(a));
    assert_eq!(lib.shots.get(&a).unwrap().filename, b"screenshot_1.png".to_vec());
    assert_eq!(lib.shots.get(&b).unwrap().filename, b"screenshot.png".to_vec());
    assert_eq!(lib.shots.get(&c).unwrap().width, 1920);
    assert!(lib.set_location(a, "Home"));
    assert!(lib.tag_user(a));
    assert!(!lib.tag_user(77));
}
