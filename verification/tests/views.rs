use nginx_rs::ngx_pool_t;
use nginx_rs::ngx_str_t;
use nginx_rs::NgxError;

#[test]
fn empty_view_converts_on_both_paths() {
    let v = ngx_str_t { data: Some(vec![1, 2, 3]), len: 0 };
    assert_eq!(v.as_utf8().unwrap(), "");
    assert_eq!(v.to_string_lossy(), "");
    assert_eq!(v.byte_len(), 0);
}

#[test]
fn null_view_converts_on_both_paths() {
    let v = ngx_str_t { data: None, len: 17 };
    assert_eq!(v.as_utf8().unwrap(), "");
    assert_eq!(v.to_string_lossy(), "");
    assert_eq!(v.byte_len(), 0);
    assert_eq!(v.to_bytes(), Vec::<u8>::new());
}

#[test]
fn invalid_utf8_fails_strict_and_survives_lossy() {
    let v = ngx_str_t { data: Some(vec![0xFF, 0xFE]), len: 2 };
    assert!(matches!(v.as_utf8(), Err(NgxError::InvalidUtf8)));
    let lossy = v.to_string_lossy();
    assert!(lossy.chars().any(|c| c == '\u{FFFD}'));
}

#[test]
fn valid_utf8_round_trips_exactly() {
    // multi-byte content: the conversion must really decode, not echo
    let bytes = vec![0xC3, 0xA9, b't', 0xC3, 0xA9];
    let v = ngx_str_t { data: Some(bytes), len: 5 };
    assert_eq!(v.as_utf8().unwrap(), "\u{e9}t\u{e9}");
    assert_eq!(v.to_string_lossy(), "\u{e9}t\u{e9}");
}

#[test]
fn overlong_length_is_clamped() {
    let v = ngx_str_t { data: Some(vec![b'a', b'b']), len: 10 };
    assert_eq!(v.byte_len(), 2);
    assert_eq!(v.as_utf8().unwrap(), "ab");
}

#[test]
fn window_shorter_than_block_truncates() {
    let v = ngx_str_t { data: Some(b"abcdef".to_vec()), len: 3 };
    assert_eq!(v.to_bytes(), b"abc".to_vec());
    assert_eq!(v.as_utf8().unwrap(), "abc");
}

#[test]
fn from_string_copies_into_the_arena() {
    let mut pool = ngx_pool_t::create(100);
    let s = ngx_str_t::from_string(&mut pool, String::from("hello")).unwrap();
    assert_eq!(pool.remaining(), 95);
    assert_eq!(s.byte_len(), 5);
    assert_eq!(s.as_utf8().unwrap(), "hello");
}

#[test]
fn from_string_fails_when_the_arena_cannot_pay() {
    let mut pool = ngx_pool_t::create(4);
    let r = ngx_str_t::from_string(&mut pool, String::from("hello"));
    assert!(matches!(r, Err(NgxError::AllocationFailed)));
    // the pool is untouched by the failure and a smaller copy still fits
    assert_eq!(pool.remaining(), 4);
    let s = ngx_str_t::from_bytes(&mut pool, vec![1, 2, 3, 4]).unwrap();
    assert_eq!(pool.remaining(), 0);
    assert_eq!(s.to_bytes(), vec![1, 2, 3, 4]);
}

#[test]
fn bytes_eq_compares_raw_bytes() {
    let a = ngx_str_t { data: Some(vec![0xFF, 1]), len: 2 };
    let b = ngx_str_t { data: Some(vec![0xFF, 1, 9]), len: 2 };
    let c = ngx_str_t { data: Some(vec![0xFF, 2]), len: 2 };
    assert!(a.bytes_eq(&b));
    assert!(!a.bytes_eq(&c));
    let empty = ngx_str_t::empty();
    let null_long = ngx_str_t { data: None, len: 5 };
    assert!(empty.bytes_eq(&null_long));
}
