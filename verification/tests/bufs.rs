use nginx_rs::ngx_buf_t;
use nginx_rs::ngx_chain_t;
use nginx_rs::ngx_pool_t;
use nginx_rs::ngx_str_t;
use nginx_rs::BufStorage;
use nginx_rs::NgxError;

fn create_buf(content: &[u8], size: usize) -> ngx_buf_t {
    ngx_buf_t {
        storage: BufStorage::Memory {
            bytes: ngx_str_t { data: Some(content.to_vec()), len: size },
            temporary: true,
            shared: false,
            mapped: false,
        },
        recycled: false,
        flush: false,
        sync: false,
        last_buf: false,
        last_in_chain: false,
        last_shadow: false,
    }
}

fn file_buf(file_pos: u64, file_last: u64) -> ngx_buf_t {
    ngx_buf_t {
        storage: BufStorage::File { file_pos, file_last },
        recycled: false,
        flush: false,
        sync: false,
        last_buf: false,
        last_in_chain: false,
        last_shadow: false,
    }
}

#[test]
fn test_display_buf() {
    let str_1 = "it.is.a.dump.string".as_bytes().to_vec();
    let buf_1 = create_buf(&str_1, 10);
    assert_eq!(10, buf_1.size());
    let str_2 = "it.is.another.string".as_bytes().to_vec();
    let buf_2 = create_buf(&str_2, 20);

    let chain_2 = ngx_chain_t { buf: buf_2.clone(), next: None };
    let chain = ngx_chain_t {
        buf: buf_1.clone(),
        next: Some(Box::new(chain_2)),
    };

    println!("buf_1: {}", buf_1.render());
    println!("buf_2: {}", buf_2.render());
    println!("chain 1: \n{}", chain.render());
    println!("chain 2: \n{}", chain.render());
}

#[test]
fn chain_sizes_add_up() {
    let mut chain = ngx_chain_t::single(create_buf(b"0123456789", 10));
    chain.append(create_buf(b"", 0));
    chain.append(create_buf(b"01234567890123456789", 20));
    assert_eq!(chain.total_size(), 30);
}

#[test]
fn empty_chain_has_size_zero() {
    // a single descriptor whose window is empty: pos == last
    let chain = ngx_chain_t::single(create_buf(b"irrelevant", 0));
    assert_eq!(chain.total_size(), 0);
}

#[test]
fn file_backed_sizes_come_from_the_offsets() {
    let b = file_buf(100, 250);
    assert!(!b.in_memory());
    assert_eq!(b.size(), 150);
    let mut chain = ngx_chain_t::single(b);
    chain.append(create_buf(b"abc", 3));
    assert_eq!(chain.total_size(), 153);
}

#[test]
fn reversed_file_offsets_clamp_to_zero() {
    let b = file_buf(300, 200);
    assert_eq!(b.size(), 0);
    assert_eq!(ngx_chain_t::single(b).total_size(), 0);
}

#[test]
fn in_memory_matches_the_storage_variant() {
    let m = create_buf(b"x", 1);
    assert!(m.in_memory());
    assert_eq!(m.size(), 1);
    let f = file_buf(0, 0);
    assert!(!f.in_memory());
}

#[test]
fn buf_to_string_is_strict() {
    let good = create_buf(b"hello", 5);
    assert_eq!(good.to_string().unwrap(), "hello");
    let bad = create_buf(&[0xFF, 0xFE], 2);
    assert!(matches!(bad.to_string(), Err(NgxError::InvalidUtf8)));
    let file = file_buf(5, 9);
    assert_eq!(file.to_string().unwrap(), "");
}

#[test]
fn chain_renders_contents_in_order() {
    let mut pool = ngx_pool_t::create(100);
    let first = ngx_str_t::from_string(&mut pool, String::from("alpha")).unwrap();
    let mut chain = ngx_chain_t::single(ngx_buf_t {
        storage: BufStorage::Memory {
            bytes: first,
            temporary: true,
            shared: false,
            mapped: false,
        },
        recycled: false,
        flush: false,
        sync: false,
        last_buf: false,
        last_in_chain: false,
        last_shadow: false,
    });
    chain.append(create_buf(b"beta", 4));
    chain.append(file_buf(0, 4));
    assert_eq!(chain.render(), "alpha\nbeta\n\n");
}

#[test]
fn append_keeps_emission_order() {
    let mut chain = ngx_chain_t::single(create_buf(b"a", 1));
    chain.append(create_buf(b"bb", 2));
    chain.append(create_buf(b"ccc", 3));
    let mut sizes = Vec::new();
    let mut cur = Some(&chain);
    while let Some(c) = cur {
        sizes.push(c.buf.size());
        cur = c.next.as_deref();
    }
    assert_eq!(sizes, vec![1, 2, 3]);
}
