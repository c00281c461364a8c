use nginx_rs::ngx_array_t;
use nginx_rs::ngx_http_headers_in_t;
use nginx_rs::ngx_http_headers_out_t;
use nginx_rs::ngx_list_t;
use nginx_rs::ngx_pool_t;
use nginx_rs::ngx_str_t;
use nginx_rs::ngx_table_elt_t;
use nginx_rs::Header;
use nginx_rs::ListIterator;
use nginx_rs::NgxError;

#[test]
fn header_round_trip_with_lowercase_cache() {
    let mut pool = ngx_pool_t::create(1024);
    let mut headers = ngx_http_headers_out_t::create(&mut pool, 4).unwrap();
    headers.add(&mut pool, "X-Test", "v1").unwrap();
    let mut it = headers.iterate();
    let e = it.next(headers.list()).unwrap();
    let h = Header::from(e.clone());
    assert_eq!(h.key(), "X-Test");
    assert_eq!(h.value(), "v1");
    assert_eq!(e.lowcase_key.as_utf8().unwrap(), "x-test");
    assert_eq!(e.lowcase_key.byte_len(), e.key.byte_len());
    assert!(e.hash != 0);
    assert!(it.next(headers.list()).is_none());
    let inner = h.into_inner();
    assert_eq!(inner.to_string(), "v1");
}

#[test]
fn duplicate_keys_are_preserved_in_order() {
    let mut pool = ngx_pool_t::create(1024);
    let mut headers = ngx_http_headers_out_t::create(&mut pool, 1).unwrap();
    headers.add(&mut pool, "K", "1").unwrap();
    headers.add(&mut pool, "K", "2").unwrap();
    let mut it = headers.iterate();
    let mut pairs = Vec::new();
    while let Some(e) = it.next(headers.list()) {
        pairs.push((e.key.as_utf8().unwrap(), e.value.as_utf8().unwrap()));
    }
    assert_eq!(
        pairs,
        vec![
            (String::from("K"), String::from("1")),
            (String::from("K"), String::from("2"))
        ]
    );
}

#[test]
fn add_charges_slot_and_three_copies() {
    let mut pool = ngx_pool_t::create(100);
    let mut headers = ngx_http_headers_in_t::create(&mut pool, 1).unwrap();
    assert_eq!(pool.remaining(), 99);
    // a spare slot exists: two copies of "K" and one of "1"
    headers.add(&mut pool, "K", "1").unwrap();
    assert_eq!(pool.remaining(), 96);
    // no spare slot: one more record slot plus the three copies
    headers.add(&mut pool, "K", "2").unwrap();
    assert_eq!(pool.remaining(), 92);
}

#[test]
fn add_failure_leaves_no_partial_record() {
    let mut pool = ngx_pool_t::create(8);
    let mut headers = ngx_http_headers_in_t::create(&mut pool, 1).unwrap();
    headers.add(&mut pool, "a", "b").unwrap();
    // a second add needs a slot (1) plus 2 + 2 + 4 copy units: 9 > 4 left
    let r = headers.add(&mut pool, "ab", "cdef");
    assert!(matches!(r, Err(NgxError::AllocationFailed)));
    let mut it = headers.iterate();
    let mut count = 0;
    while let Some(e) = it.next(headers.list()) {
        assert_eq!(e.key.as_utf8().unwrap(), "a");
        count += 1;
    }
    assert_eq!(count, 1);
}

#[test]
fn host_str_finds_the_host_header_case_insensitively() {
    let mut pool = ngx_pool_t::create(1024);
    let mut headers = ngx_http_headers_in_t::create(&mut pool, 2).unwrap();
    headers.add(&mut pool, "Accept", "*/*").unwrap();
    headers.add(&mut pool, "HoSt", "example.test").unwrap();
    headers.add(&mut pool, "Host", "second.test").unwrap();
    assert_eq!(headers.host_str(), "example.test");
}

#[test]
fn host_str_is_empty_without_a_host_header() {
    let mut pool = ngx_pool_t::create(1024);
    let mut headers = ngx_http_headers_in_t::create(&mut pool, 2).unwrap();
    assert_eq!(headers.host_str(), "");
    headers.add(&mut pool, "Accept", "*/*").unwrap();
    assert_eq!(headers.host_str(), "");
}

#[test]
fn set_rewrites_a_record_in_place() {
    let mut pool = ngx_pool_t::create(1024);
    let mut headers = ngx_http_headers_in_t::create(&mut pool, 2).unwrap();
    headers.add(&mut pool, "X-Old", "before").unwrap();
    headers.add(&mut pool, "Keep", "kept").unwrap();
    let left = pool.remaining();
    headers.set(&mut pool, 0, "X-New", "after").unwrap();
    // two copies of the 5-byte key plus the 5-byte value, and no slot
    assert_eq!(pool.remaining(), left - 15);
    let mut it = headers.iterate();
    let e = it.next(headers.list()).unwrap();
    assert_eq!(e.key.as_utf8().unwrap(), "X-New");
    assert_eq!(e.value.as_utf8().unwrap(), "after");
    assert_eq!(e.lowcase_key.as_utf8().unwrap(), "x-new");
    let e = it.next(headers.list()).unwrap();
    assert_eq!(e.key.as_utf8().unwrap(), "Keep");
    assert!(it.next(headers.list()).is_none());
}

#[test]
fn set_failure_changes_nothing() {
    let mut pool = ngx_pool_t::create(16);
    let mut headers = ngx_http_headers_in_t::create(&mut pool, 1).unwrap();
    headers.add(&mut pool, "a", "b").unwrap();
    let left = pool.remaining();
    let r = headers.set(&mut pool, 0, "much-too-long-a-key", "and-value");
    assert!(matches!(r, Err(NgxError::AllocationFailed)));
    assert_eq!(pool.remaining(), left);
    let mut it = headers.iterate();
    let e = it.next(headers.list()).unwrap();
    assert_eq!(e.key.as_utf8().unwrap(), "a");
}

#[test]
fn array_conversion_skips_null_slots() {
    let elt = |v: &str| ngx_table_elt_t {
        hash: 1,
        key: ngx_str_t { data: Some(b"k".to_vec()), len: 1 },
        value: ngx_str_t { data: Some(v.as_bytes().to_vec()), len: v.len() },
        lowcase_key: ngx_str_t { data: Some(b"k".to_vec()), len: 1 },
    };
    let arr = ngx_array_t {
        elts: Some(vec![Some(elt("one")), None, Some(elt("two"))]),
        nelts: 3,
    };
    assert_eq!(arr.table_elt_to_string_vec(), vec!["one", "two"]);

    let null_arr = ngx_array_t { elts: None, nelts: 7 };
    assert_eq!(null_arr.table_elt_to_string_vec(), Vec::<String>::new());

    // nelts clamps to what the block really holds
    let short = ngx_array_t { elts: Some(vec![Some(elt("x"))]), nelts: 10 };
    assert_eq!(short.table_elt_to_string_vec(), vec!["x"]);
}

#[test]
fn from_list_wraps_existing_records_without_copying() {
    let mut pool = ngx_pool_t::create(64);
    let mut list: ngx_list_t<ngx_table_elt_t> = ngx_list_t::create(&mut pool, 2).unwrap();
    let elt = ngx_table_elt_t {
        hash: 1,
        key: ngx_str_t { data: Some(b"Host".to_vec()), len: 4 },
        value: ngx_str_t { data: Some(b"wrapped.test".to_vec()), len: 12 },
        lowcase_key: ngx_str_t { data: Some(b"host".to_vec()), len: 4 },
    };
    list.push(&mut pool, elt).unwrap();
    let left = pool.remaining();
    let headers = ngx_http_headers_in_t::from_list(list);
    // wrapping takes nothing further from the arena
    assert_eq!(pool.remaining(), left);
    assert_eq!(headers.host_str(), "wrapped.test");
}

#[test]
fn pairs_projects_keys_and_values_in_order() {
    let mut pool = ngx_pool_t::create(1024);
    let mut headers = ngx_http_headers_out_t::create(&mut pool, 2).unwrap();
    headers.add(&mut pool, "Alpha", "1").unwrap();
    headers.add(&mut pool, "Beta", "2").unwrap();
    headers.add(&mut pool, "Gamma", "3").unwrap();
    let pairs = headers.pairs();
    assert_eq!(
        pairs,
        vec![
            (String::from("Alpha"), String::from("1")),
            (String::from("Beta"), String::from("2")),
            (String::from("Gamma"), String::from("3")),
        ]
    );
}

#[test]
fn tables_iterate_independently() {
    let mut pool = ngx_pool_t::create(1024);
    let mut inbound = ngx_http_headers_in_t::create(&mut pool, 2).unwrap();
    let mut outbound = ngx_http_headers_out_t::create(&mut pool, 2).unwrap();
    inbound.add(&mut pool, "A", "1").unwrap();
    outbound.add(&mut pool, "B", "2").unwrap();
    let mut it = ListIterator::from_ngx_list(inbound.list());
    let e = it.next(inbound.list()).unwrap();
    assert_eq!(e.key.as_utf8().unwrap(), "A");
    assert!(it.next(inbound.list()).is_none());
    let mut ot = ListIterator::from_ngx_list(outbound.list());
    let e = ot.next(outbound.list()).unwrap();
    assert_eq!(e.value.as_utf8().unwrap(), "2");
    assert!(ot.next(outbound.list()).is_none());
}
