use crate::error::NgxError;
use crate::list::ngx_list_t;
use crate::list::ListIterator;
use crate::ngx_str::lossy_of;
use crate::ngx_str::ngx_str_t;
use crate::pool::ngx_pool_t;
use vstd::prelude::*;
use vstd::string::StringSliceAdditionalSpecFns;
use vstd::string::StrSliceExecFns;
use vstd::utf8::decode_utf8;
use vstd::utf8::encode_utf8;
use vstd::utf8::valid_utf8;

verus! {

/// ASCII lowercasing of one byte: `A`..`Z` map to `a`..`z`, every other
/// byte is untouched.
pub open spec fn lower_byte(b: u8) -> u8 {
    if 65 <= b && b <= 90 {
        (b + 32) as u8
    } else {
        b
    }
}

/// ASCII lowercasing of a byte sequence, byte for byte; the result always
/// has the length of its input.
pub open spec fn lower_bytes(s: Seq<u8>) -> Seq<u8> {
    s.map_values(|b: u8| lower_byte(b))
}

/// ASCII-lowercased copy of the given bytes.
fn to_lower_vec(v: &Vec<u8>) -> (r: Vec<u8>)
    ensures
        r@ == lower_bytes(v@),
{
    let mut out: Vec<u8> = Vec::new();
    let mut i: usize = 0;
    while i < v.len()
        invariant
            i <= v@.len(),
            out@.len() == i,
            forall|j: int| 0 <= j < i ==> out@[j] == lower_byte(v@[j]),
        decreases v@.len() - i,
    {
        let b = v[i];
        if 65 <= b && b <= 90 {
            out.push(b + 32);
        } else {
            out.push(b);
        }
        i = i + 1;
    }
    proof {
        assert(out@ =~= lower_bytes(v@));
    }
    out
}

/// One header record: a key, a value, the lowercase cache derived from the
/// key at write time, and the non-zero hash marker consumers use to tell a
/// populated record from a "do not output" sentinel.
#[derive(Clone, Debug)]
pub struct ngx_table_elt_t {
    /// Non-zero once the record is populated; this layer only stores it.
    pub hash: u64,
    pub key: ngx_str_t,
    pub value: ngx_str_t,
    /// ASCII-lowercased copy of `key`, written at the same time as `key`
    /// and always of the same length; used elsewhere for case-insensitive
    /// matching.
    pub lowcase_key: ngx_str_t,
}

/// A populated record is marked and its lowercase cache is derived from its
/// key.
pub open spec fn elt_wf(e: ngx_table_elt_t) -> bool {
    &&& e.hash != 0
    &&& e.lowcase_key@ == lower_bytes(e.key@)
}

/// The lowercase cache of a well-formed record always has the same length
/// as its key: lowercasing maps byte for byte.
pub proof fn lemma_lowcase_len(e: ngx_table_elt_t)
    requires
        elt_wf(e),
    ensures
        e.lowcase_key@.len() == e.key@.len(),
{
}

/// What `add(key, value)` writes into a fresh record.
pub open spec fn spec_elt_matches(e: ngx_table_elt_t, key: Seq<char>, value: Seq<char>) -> bool {
    &&& e.key@ == encode_utf8(key)
    &&& e.value@ == encode_utf8(value)
    &&& e.lowcase_key@ == lower_bytes(encode_utf8(key))
    &&& e.hash == 1
}

impl ngx_table_elt_t {
    /// The record's value as a string, decoded leniently — the rendering
    /// the diagnostics paths use.
    pub fn to_string(&self) -> (r: String)
        ensures
            r@ == lossy_of(self.value@),
            valid_utf8(self.value@) ==> r@ == decode_utf8(self.value@),
            self.value@.len() == 0 ==> r@.len() == 0,
    {
        self.value.to_string_lossy()
    }
}

/// An owned handle on one header record, as the iteration paths hand it
/// out.
pub struct Header(ngx_table_elt_t);

impl Header {
    /// The record inside the handle.
    pub closed spec fn spec_elt(&self) -> ngx_table_elt_t {
        self.0
    }

    /// Wraps a record.
    pub fn from(table: ngx_table_elt_t) -> (h: Header)
        ensures
            h.spec_elt() == table,
    {
        Header(table)
    }

    /// The record's key, decoded leniently.
    pub fn key(&self) -> (r: String)
        ensures
            r@ == lossy_of(self.spec_elt().key@),
            valid_utf8(self.spec_elt().key@) ==> r@ == decode_utf8(self.spec_elt().key@),
    {
        self.0.key.to_string_lossy()
    }

    /// The record's value, decoded leniently.
    pub fn value(&self) -> (r: String)
        ensures
            r@ == lossy_of(self.spec_elt().value@),
            valid_utf8(self.spec_elt().value@) ==> r@ == decode_utf8(self.spec_elt().value@),
    {
        self.0.value.to_string_lossy()
    }

    /// Unwraps the handle.
    pub fn into_inner(self) -> (r: ngx_table_elt_t)
        ensures
            r == self.spec_elt(),
    {
        self.0
    }
}

/// The arena units `add` needs on a table whose backing list currently has
/// the given spare slots: a record slot unless one is spare, plus two arena
/// copies of the key (original and lowercase) and one of the value.
pub open spec fn add_cost(spare: nat, nalloc: nat, key: Seq<char>, value: Seq<char>) -> int {
    (if spare > 0 {
        0int
    } else {
        nalloc as int
    }) + 2 * encode_utf8(key).len() + encode_utf8(value).len()
}

/// Appends a fully populated record to a header list: the key and value are
/// copied into the arena (the table never borrows caller memory), the
/// lowercase cache is derived from the key, and the hash marker is set to
/// the "populated" sentinel. Succeeds exactly when the pool can pay for the
/// slot and the copies; on failure the list and the pool are untouched and
/// no partial record is ever visible to iteration.
fn add_to_ngx_table(
    list: &mut ngx_list_t<ngx_table_elt_t>,
    pool: &mut ngx_pool_t,
    key: &str,
    value: &str,
) -> (r: Result<(), NgxError>)
    requires
        old(list).wf(),
    ensures
        final(list).wf(),
        final(list).spec_nalloc() == old(list).spec_nalloc(),
        r is Ok <==> add_cost(old(list).spec_spare(), old(list).spec_nalloc(), key@, value@)
            <= old(pool).spec_remaining(),
        r is Ok ==> final(pool).spec_remaining() == old(pool).spec_remaining() - add_cost(
            old(list).spec_spare(),
            old(list).spec_nalloc(),
            key@,
            value@,
        ),
        r is Ok ==> final(list)@ == old(list)@.push(final(list)@.last()) && spec_elt_matches(
            final(list)@.last(),
            key@,
            value@,
        ),
        r is Ok ==> final(list).spec_spare() == (if old(list).spec_spare() > 0 {
            old(list).spec_spare() - 1
        } else {
            old(list).spec_nalloc() - 1
        }),
        r matches Err(e) ==> *final(list) == *old(list) && *final(pool) == *old(pool) && e
            == NgxError::AllocationFailed,
{
    let kb = key.as_bytes_vec();
    let vb = value.as_bytes_vec();
    let slot: usize = if list.spare() > 0 {
        0
    } else {
        list.capacity()
    };
    let need: u128 = slot as u128 + 2 * (kb.len() as u128) + (vb.len() as u128);
    if need > pool.remaining() as u128 {
        return Err(NgxError::AllocationFailed);
    }
    let low = to_lower_vec(&kb);
    let key_s = match ngx_str_t::from_bytes(pool, kb) {
        Ok(s) => s,
        Err(e) => {
            proof {
                assert(false);
            }
            return Err(e);
        },
    };
    let low_s = match ngx_str_t::from_bytes(pool, low) {
        Ok(s) => s,
        Err(e) => {
            proof {
                assert(false);
            }
            return Err(e);
        },
    };
    let val_s = match ngx_str_t::from_bytes(pool, vb) {
        Ok(s) => s,
        Err(e) => {
            proof {
                assert(false);
            }
            return Err(e);
        },
    };
    let elt = ngx_table_elt_t { hash: 1, key: key_s, value: val_s, lowcase_key: low_s };
    match list.push(pool, elt) {
        Ok(()) => Ok(()),
        Err(e) => {
            proof {
                assert(false);
            }
            Err(e)
        },
    }
}

/// Rewrites the record at position `i` of a header list in place, with
/// fresh arena copies of the key and value, the rederived lowercase cache
/// and the populated marker. Succeeds exactly when the pool can pay for
/// the copies; no slot is taken and on failure nothing changes.
fn set_in_ngx_table(
    list: &mut ngx_list_t<ngx_table_elt_t>,
    pool: &mut ngx_pool_t,
    i: usize,
    key: &str,
    value: &str,
) -> (r: Result<(), NgxError>)
    requires
        old(list).wf(),
        i < old(list)@.len(),
    ensures
        final(list).wf(),
        final(list).spec_nalloc() == old(list).spec_nalloc(),
        final(list).spec_spare() == old(list).spec_spare(),
        r is Ok <==> 2 * encode_utf8(key@).len() + encode_utf8(value@).len() <= old(
            pool,
        ).spec_remaining(),
        r is Ok ==> final(pool).spec_remaining() == old(pool).spec_remaining() - (2 * encode_utf8(
            key@,
        ).len() + encode_utf8(value@).len()),
        r is Ok ==> final(list)@ == old(list)@.update(i as int, final(list)@[i as int])
            && spec_elt_matches(final(list)@[i as int], key@, value@),
        r matches Err(e) ==> *final(list) == *old(list) && *final(pool) == *old(pool) && e
            == NgxError::AllocationFailed,
{
    let kb = key.as_bytes_vec();
    let vb = value.as_bytes_vec();
    let need: u128 = 2 * (kb.len() as u128) + (vb.len() as u128);
    if need > pool.remaining() as u128 {
        return Err(NgxError::AllocationFailed);
    }
    let low = to_lower_vec(&kb);
    let key_s = match ngx_str_t::from_bytes(pool, kb) {
        Ok(s) => s,
        Err(e) => {
            proof {
                assert(false);
            }
            return Err(e);
        },
    };
    let low_s = match ngx_str_t::from_bytes(pool, low) {
        Ok(s) => s,
        Err(e) => {
            proof {
                assert(false);
            }
            return Err(e);
        },
    };
    let val_s = match ngx_str_t::from_bytes(pool, vb) {
        Ok(s) => s,
        Err(e) => {
            proof {
                assert(false);
            }
            return Err(e);
        },
    };
    let elt = ngx_table_elt_t { hash: 1, key: key_s, value: val_s, lowcase_key: low_s };
    list.set(i, elt);
    Ok(())
}

/// A full traversal of a header list projected onto the two string fields:
/// one leniently decoded `(key, value)` pair per record, in insertion
/// order.
fn list_pairs(list: &ngx_list_t<ngx_table_elt_t>) -> (r: Vec<(String, String)>)
    requires
        list.wf(),
    ensures
        r@.len() == list@.len(),
        forall|i: int|
            0 <= i < list@.len() ==> (#[trigger] r@[i]).0@ == lossy_of(list@[i].key@)
                && r@[i].1@ == lossy_of(list@[i].value@),
{
    let mut out: Vec<(String, String)> = Vec::new();
    let mut it = ListIterator::from_ngx_list(list);
    loop
        invariant
            list.wf(),
            it.valid(*list),
            0 <= it.spec_pos(*list) <= list@.len(),
            out@.len() == it.spec_pos(*list),
            forall|i: int|
                0 <= i < out@.len() ==> (#[trigger] out@[i]).0@ == lossy_of(list@[i].key@)
                    && out@[i].1@ == lossy_of(list@[i].value@),
        decreases list@.len() - it.spec_pos(*list),
    {
        match it.next(list) {
            Some(e) => {
                let k = e.key.to_string_lossy();
                let v = e.value.to_string_lossy();
                out.push((k, v));
            },
            None => {
                return out;
            },
        }
    }
}

/// The lowercase key under which the Host header is cached.
pub open spec fn host_key_bytes() -> Seq<u8> {
    seq![104u8, 111u8, 115u8, 116u8]
}

/// The record is the Host header: its lowercase key cache reads `host`.
pub open spec fn spec_is_host(e: ngx_table_elt_t) -> bool {
    e.lowcase_key@ == host_key_bytes()
}

/// Index of the first Host record at or after `i`, or the length when no
/// record from `i` on is one.
pub open spec fn first_host_from(entries: Seq<ngx_table_elt_t>, i: int) -> int
    decreases entries.len() - i,
    when 0 <= i <= entries.len()
{
    if i >= entries.len() {
        entries.len() as int
    } else if spec_is_host(entries[i]) {
        i
    } else {
        first_host_from(entries, i + 1)
    }
}

proof fn lemma_first_host_skip(entries: Seq<ngx_table_elt_t>, i: int, p: int)
    requires
        0 <= i <= p <= entries.len(),
        forall|j: int| i <= j < p ==> !spec_is_host(#[trigger] entries[j]),
    ensures
        first_host_from(entries, i) == first_host_from(entries, p),
    decreases p - i,
{
    if i < p {
        assert(!spec_is_host(entries[i]));
        lemma_first_host_skip(entries, i + 1, p);
    }
}

/// Tests whether a record is the Host header.
fn is_host_elt(e: &ngx_table_elt_t) -> (r: bool)
    ensures
        r == spec_is_host(*e),
{
    let b = e.lowcase_key.to_bytes();
    if b.len() == 4 && b[0] == 104 && b[1] == 111 && b[2] == 115 && b[3] == 116 {
        proof {
            assert(e.lowcase_key@ =~= host_key_bytes());
        }
        true
    } else {
        proof {
            if e.lowcase_key@ == host_key_bytes() {
                assert(b@[0] == 104 && b@[1] == 111 && b@[2] == 115 && b@[3] == 116);
            }
        }
        false
    }
}

/// A fixed array of header-record slots, as the request object hands one
/// to consumers: `elts` is the backing block (`None` models a null
/// pointer) and `nelts` counts the populated entries. A slot may itself be
/// a null pointer.
pub struct ngx_array_t {
    pub elts: Option<Vec<Option<ngx_table_elt_t>>>,
    pub nelts: usize,
}

/// The values of the non-null records, decoded leniently, in array order.
pub open spec fn table_strings(items: Seq<Option<ngx_table_elt_t>>) -> Seq<Seq<char>>
    decreases items.len(),
{
    if items.len() == 0 {
        Seq::empty()
    } else {
        table_strings(items.drop_last()) + (match items.last() {
            Option::Some(e) => seq![lossy_of(e.value@)],
            Option::None => Seq::empty(),
        })
    }
}

impl ngx_array_t {
    /// The populated slots the array denotes: none for a null block, and
    /// never more than the block holds.
    pub open spec fn items(&self) -> Seq<Option<ngx_table_elt_t>> {
        match self.elts {
            Option::None => Seq::empty(),
            Option::Some(v) => {
                if self.nelts <= v@.len() {
                    v@.take(self.nelts as int)
                } else {
                    v@
                }
            },
        }
    }

    /// The values of the array's non-null records as strings, decoded
    /// leniently, in array order; null slots are skipped, a null block
    /// yields nothing.
    pub fn table_elt_to_string_vec(&self) -> (r: Vec<String>)
        ensures
            r.deep_view() == table_strings(self.items()),
    {
        let mut ret: Vec<String> = Vec::new();
        match &self.elts {
            Option::None => {
                proof {
                    assert(ret.deep_view() =~= table_strings(self.items()));
                }
                ret
            },
            Option::Some(v) => {
                let n = if self.nelts <= v.len() {
                    self.nelts
                } else {
                    v.len()
                };
                let mut i: usize = 0;
                while i < n
                    invariant
                        i <= n,
                        n as int == self.items().len(),
                        n <= v@.len(),
                        forall|m: int| 0 <= m < n ==> self.items()[m] == v@[m],
                        ret.deep_view() =~= table_strings(self.items().take(i as int)),
                    decreases n - i,
                {
                    match &v[i] {
                        Option::Some(e) => {
                            let s = e.value.to_string_lossy();
                            ret.push(s);
                        },
                        Option::None => {},
                    }
                    proof {
                        assert(self.items().take(i + 1).drop_last() =~= self.items().take(i as int));
                        assert(self.items().take(i + 1).last() == self.items()[i as int]);
                        assert(ret.deep_view() =~= table_strings(self.items().take(i + 1)));
                    }
                    i = i + 1;
                }
                proof {
                    assert(self.items().take(n as int) =~= self.items());
                }
                ret
            },
        }
    }
}

/// The table of a request's inbound headers: a segmented list of records,
/// grown only by `add`, discarded with the request arena.
pub struct ngx_http_headers_in_t {
    headers: ngx_list_t<ngx_table_elt_t>,
}

/// The table of a response's outbound headers: a segmented list of records,
/// grown only by `add`, discarded with the request arena.
pub struct ngx_http_headers_out_t {
    headers: ngx_list_t<ngx_table_elt_t>,
}

impl View for ngx_http_headers_in_t {
    type V = Seq<ngx_table_elt_t>;

    /// The header records, in insertion order.
    closed spec fn view(&self) -> Seq<ngx_table_elt_t> {
        self.headers@
    }
}

impl View for ngx_http_headers_out_t {
    type V = Seq<ngx_table_elt_t>;

    /// The header records, in insertion order.
    closed spec fn view(&self) -> Seq<ngx_table_elt_t> {
        self.headers@
    }
}

impl ngx_http_headers_in_t {
    /// The backing segmented list.
    pub closed spec fn spec_list(&self) -> ngx_list_t<ngx_table_elt_t> {
        self.headers
    }

    /// Free record slots left in the list's last segment.
    pub open spec fn spec_spare(&self) -> nat {
        self.spec_list().spec_spare()
    }

    /// The list's fixed per-segment capacity.
    pub open spec fn spec_nalloc(&self) -> nat {
        self.spec_list().spec_nalloc()
    }

    /// The backing list is sound and every record it holds is populated,
    /// with its lowercase cache derived from its key.
    pub open spec fn wf(&self) -> bool {
        &&& self.spec_list().wf()
        &&& forall|k: int| 0 <= k < self@.len() ==> elt_wf(#[trigger] self@[k])
    }

    /// An empty inbound table whose first segment holds `n` record slots.
    /// Succeeds exactly when the pool has `n` units left.
    pub fn create(pool: &mut ngx_pool_t, n: usize) -> (r: Result<ngx_http_headers_in_t, NgxError>)
        requires
            n >= 1,
        ensures
            r is Ok <==> n <= old(pool).spec_remaining(),
            r matches Ok(t) ==> t.wf() && t@ =~= Seq::<ngx_table_elt_t>::empty() && t.spec_nalloc()
                == n && t.spec_spare() == n && final(pool).spec_remaining() == old(
                pool,
            ).spec_remaining() - n,
            r matches Err(e) ==> *final(pool) == *old(pool) && e == NgxError::AllocationFailed,
    {
        match ngx_list_t::create(pool, n) {
            Ok(l) => Ok(ngx_http_headers_in_t { headers: l }),
            Err(e) => Err(e),
        }
    }

    /// Appends a header: key and value are copied into the arena, the
    /// lowercase key cache is derived, the record is marked populated.
    /// Duplicate keys are kept, in insertion order. Succeeds exactly when
    /// the pool can pay; on failure the table is untouched.
    pub fn add(&mut self, pool: &mut ngx_pool_t, key: &str, value: &str) -> (r: Result<
        (),
        NgxError,
    >)
        requires
            old(self).wf(),
        ensures
            final(self).wf(),
            final(self).spec_nalloc() == old(self).spec_nalloc(),
            r is Ok <==> add_cost(old(self).spec_spare(), old(self).spec_nalloc(), key@, value@)
                <= old(pool).spec_remaining(),
            r is Ok ==> final(pool).spec_remaining() == old(pool).spec_remaining() - add_cost(
                old(self).spec_spare(),
                old(self).spec_nalloc(),
                key@,
                value@,
            ),
            r is Ok ==> final(self)@ == old(self)@.push(final(self)@.last()) && spec_elt_matches(
                final(self)@.last(),
                key@,
                value@,
            ),
            r is Ok ==> final(self).spec_spare() == (if old(self).spec_spare() > 0 {
                old(self).spec_spare() - 1
            } else {
                old(self).spec_nalloc() - 1
            }),
            r matches Err(e) ==> *final(self) == *old(self) && *final(pool) == *old(pool) && e
                == NgxError::AllocationFailed,
    {
        let r = add_to_ngx_table(&mut self.headers, pool, key, value);
        proof {
            if r is Ok {
                assert forall|k: int| 0 <= k < self@.len() implies elt_wf(#[trigger] self@[k]) by {
                    if k < self@.len() - 1 {
                        assert(self@[k] == old(self)@[k]);
                    } else {
                        assert(spec_elt_matches(self@[k], key@, value@));
                    }
                }
            }
        }
        r
    }

    /// The backing list, for read-only traversal.
    pub fn list(&self) -> (r: &ngx_list_t<ngx_table_elt_t>)
        ensures
            *r == self.spec_list(),
    {
        &self.headers
    }

    /// A fresh cursor over the headers, at the first record.
    pub fn iterate(&self) -> (it: ListIterator)
        requires
            self.wf(),
        ensures
            it.valid(self.spec_list()),
            it.spec_pos(self.spec_list()) == 0,
    {
        ListIterator::from_ngx_list(&self.headers)
    }

    /// Every header as a leniently decoded `(key, value)` pair, in
    /// insertion order — the enumeration consumers use for forwarding or
    /// logging, blind to the lowercase cache and the hash marker.
    pub fn pairs(&self) -> (r: Vec<(String, String)>)
        requires
            self.wf(),
        ensures
            r@.len() == self@.len(),
            forall|i: int|
                0 <= i < self@.len() ==> (#[trigger] r@[i]).0@ == lossy_of(self@[i].key@)
                    && r@[i].1@ == lossy_of(self@[i].value@),
    {
        list_pairs(&self.headers)
    }

    /// Wraps a pre-existing list of inbound records — as handed over by the
    /// connection layer — without copying them; the wrapped records must
    /// already be populated, with their lowercase caches in place.
    pub fn from_list(list: ngx_list_t<ngx_table_elt_t>) -> (t: ngx_http_headers_in_t)
        requires
            list.wf(),
            forall|k: int| 0 <= k < list@.len() ==> elt_wf(#[trigger] list@[k]),
        ensures
            t.wf(),
            t@ == list@,
            t.spec_list() == list,
    {
        ngx_http_headers_in_t { headers: list }
    }

    /// Rewrites the already-reserved record at position `i` in place:
    /// fresh arena copies of `key` and `value`, a rederived lowercase key,
    /// and the populated marker — the way an inbound header is normalized
    /// rather than appended. No record moves and no slot is allocated.
    /// Succeeds exactly when the pool can pay for the three copies; on
    /// failure the table is untouched.
    pub fn set(&mut self, pool: &mut ngx_pool_t, i: usize, key: &str, value: &str) -> (r: Result<
        (),
        NgxError,
    >)
        requires
            old(self).wf(),
            i < old(self)@.len(),
        ensures
            final(self).wf(),
            final(self).spec_nalloc() == old(self).spec_nalloc(),
            final(self).spec_spare() == old(self).spec_spare(),
            r is Ok <==> 2 * encode_utf8(key@).len() + encode_utf8(value@).len() <= old(
                pool,
            ).spec_remaining(),
            r is Ok ==> final(pool).spec_remaining() == old(pool).spec_remaining() - (2
                * encode_utf8(key@).len() + encode_utf8(value@).len()),
            r is Ok ==> final(self)@ == old(self)@.update(i as int, final(self)@[i as int])
                && spec_elt_matches(final(self)@[i as int], key@, value@),
            r matches Err(e) ==> *final(self) == *old(self) && *final(pool) == *old(pool) && e
                == NgxError::AllocationFailed,
    {
        let r = set_in_ngx_table(&mut self.headers, pool, i, key, value);
        proof {
            if r is Ok {
                assert forall|k: int| 0 <= k < self@.len() implies elt_wf(#[trigger] self@[k]) by {
                    if k != i as int {
                        assert(self@[k] == old(self)@[k]);
                    } else {
                        assert(spec_elt_matches(self@[k], key@, value@));
                    }
                }
            }
        }
        r
    }

    /// The value of the Host header, decoded leniently, or the empty string
    /// when no record's lowercase key reads `host`. Never fails and takes
    /// nothing from the arena.
    pub fn host_str(&self) -> (r: String)
        requires
            self.wf(),
        ensures
            ({
                let k = first_host_from(self@, 0);
                if k < self@.len() {
                    r@ == lossy_of(self@[k].value@)
                } else {
                    r@.len() == 0
                }
            }),
    {
        let mut it = ListIterator::from_ngx_list(&self.headers);
        loop
            invariant
                self.wf(),
                it.valid(self.spec_list()),
                0 <= it.spec_pos(self.spec_list()) <= self@.len(),
                forall|j: int|
                    0 <= j < it.spec_pos(self.spec_list()) ==> !spec_is_host(#[trigger] self@[j]),
            decreases self@.len() - it.spec_pos(self.spec_list()),
        {
            let ghost pos = it.spec_pos(self.spec_list());
            match it.next(&self.headers) {
                Some(e) => {
                    if is_host_elt(e) {
                        proof {
                            lemma_first_host_skip(self@, 0, pos);
                        }
                        return e.value.to_string_lossy();
                    }
                },
                None => {
                    proof {
                        lemma_first_host_skip(self@, 0, self@.len() as int);
                    }
                    return String::new();
                },
            }
        }
    }
}

impl ngx_http_headers_out_t {
    /// The backing segmented list.
    pub closed spec fn spec_list(&self) -> ngx_list_t<ngx_table_elt_t> {
        self.headers
    }

    /// Free record slots left in the list's last segment.
    pub open spec fn spec_spare(&self) -> nat {
        self.spec_list().spec_spare()
    }

    /// The list's fixed per-segment capacity.
    pub open spec fn spec_nalloc(&self) -> nat {
        self.spec_list().spec_nalloc()
    }

    /// The backing list is sound and every record it holds is populated,
    /// with its lowercase cache derived from its key.
    pub open spec fn wf(&self) -> bool {
        &&& self.spec_list().wf()
        &&& forall|k: int| 0 <= k < self@.len() ==> elt_wf(#[trigger] self@[k])
    }

    /// An empty outbound table whose first segment holds `n` record slots.
    /// Succeeds exactly when the pool has `n` units left.
    pub fn create(pool: &mut ngx_pool_t, n: usize) -> (r: Result<ngx_http_headers_out_t, NgxError>)
        requires
            n >= 1,
        ensures
            r is Ok <==> n <= old(pool).spec_remaining(),
            r matches Ok(t) ==> t.wf() && t@ =~= Seq::<ngx_table_elt_t>::empty() && t.spec_nalloc()
                == n && t.spec_spare() == n && final(pool).spec_remaining() == old(
                pool,
            ).spec_remaining() - n,
            r matches Err(e) ==> *final(pool) == *old(pool) && e == NgxError::AllocationFailed,
    {
        match ngx_list_t::create(pool, n) {
            Ok(l) => Ok(ngx_http_headers_out_t { headers: l }),
            Err(e) => Err(e),
        }
    }

    /// Appends a header: key and value are copied into the arena, the
    /// lowercase key cache is derived, the record is marked populated.
    /// Duplicate keys are kept, in insertion order. Succeeds exactly when
    /// the pool can pay; on failure the table is untouched.
    pub fn add(&mut self, pool: &mut ngx_pool_t, key: &str, value: &str) -> (r: Result<
        (),
        NgxError,
    >)
        requires
            old(self).wf(),
        ensures
            final(self).wf(),
            final(self).spec_nalloc() == old(self).spec_nalloc(),
            r is Ok <==> add_cost(old(self).spec_spare(), old(self).spec_nalloc(), key@, value@)
                <= old(pool).spec_remaining(),
            r is Ok ==> final(pool).spec_remaining() == old(pool).spec_remaining() - add_cost(
                old(self).spec_spare(),
                old(self).spec_nalloc(),
                key@,
                value@,
            ),
            r is Ok ==> final(self)@ == old(self)@.push(final(self)@.last()) && spec_elt_matches(
                final(self)@.last(),
                key@,
                value@,
            ),
            r is Ok ==> final(self).spec_spare() == (if old(self).spec_spare() > 0 {
                old(self).spec_spare() - 1
            } else {
                old(self).spec_nalloc() - 1
            }),
            r matches Err(e) ==> *final(self) == *old(self) && *final(pool) == *old(pool) && e
                == NgxError::AllocationFailed,
    {
        let r = add_to_ngx_table(&mut self.headers, pool, key, value);
        proof {
            if r is Ok {
                assert forall|k: int| 0 <= k < self@.len() implies elt_wf(#[trigger] self@[k]) by {
                    if k < self@.len() - 1 {
                        assert(self@[k] == old(self)@[k]);
                    } else {
                        assert(spec_elt_matches(self@[k], key@, value@));
                    }
                }
            }
        }
        r
    }

    /// The backing list, for read-only traversal.
    pub fn list(&self) -> (r: &ngx_list_t<ngx_table_elt_t>)
        ensures
            *r == self.spec_list(),
    {
        &self.headers
    }

    /// A fresh cursor over the headers, at the first record.
    pub fn iterate(&self) -> (it: ListIterator)
        requires
            self.wf(),
        ensures
            it.valid(self.spec_list()),
            it.spec_pos(self.spec_list()) == 0,
    {
        ListIterator::from_ngx_list(&self.headers)
    }

    /// Every header as a leniently decoded `(key, value)` pair, in
    /// insertion order — the enumeration consumers use for forwarding or
    /// logging, blind to the lowercase cache and the hash marker.
    pub fn pairs(&self) -> (r: Vec<(String, String)>)
        requires
            self.wf(),
        ensures
            r@.len() == self@.len(),
            forall|i: int|
                0 <= i < self@.len() ==> (#[trigger] r@[i]).0@ == lossy_of(self@[i].key@)
                    && r@[i].1@ == lossy_of(self@[i].value@),
    {
        list_pairs(&self.headers)
    }
}

} // verus!
