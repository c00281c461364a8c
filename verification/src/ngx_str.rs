use crate::error::NgxError;
use crate::pool::ngx_pool_t;
use vstd::prelude::*;
use vstd::string::StringSliceAdditionalSpecFns;
use vstd::string::StrSliceExecFns;
use vstd::utf8::decode_utf8;
use vstd::utf8::encode_utf8;
use vstd::utf8::valid_utf8;

verus! {

/// A borrowed span of arena-owned bytes: the foundation every other
/// structure builds on.
///
/// A view stands for a pointer-plus-length pair: `data` holds the arena
/// block the pointer addresses (`None` standing for a null or unset
/// pointer) and `len` counts the bytes of the block that belong to the view.
/// The view never mutates the bytes and denotes the empty sequence whenever
/// `len` is zero or the pointer is null; a `len` that overruns the block is
/// clamped, so no operation ever reads out of bounds.
#[derive(Clone, Debug)]
pub struct ngx_str_t {
    /// The addressed arena block; `None` models a null pointer.
    pub data: Option<Vec<u8>>,
    /// How many bytes of the block the view covers.
    pub len: usize,
}

impl View for ngx_str_t {
    type V = Seq<u8>;

    /// The byte sequence the view denotes.
    open spec fn view(&self) -> Seq<u8> {
        match self.data {
            Option::None => Seq::empty(),
            Option::Some(d) => {
                if self.len <= d@.len() {
                    d@.take(self.len as int)
                } else {
                    d@
                }
            },
        }
    }
}

/// What `String::from_utf8_lossy` returns for the given bytes: it depends on
/// the bytes alone.
pub uninterp spec fn lossy_of(b: Seq<u8>) -> Seq<char>;

/// Relies on `String::from_utf8`: succeeds exactly on well-formed UTF-8 and
/// then decodes it faithfully.
#[verifier::external_body]
fn utf8_to_string(v: Vec<u8>) -> (r: Result<String, NgxError>)
    ensures
        r is Ok <==> valid_utf8(v@),
        r is Ok ==> r->Ok_0@ == decode_utf8(v@),
        r is Err ==> r->Err_0 == NgxError::InvalidUtf8,
{
    match String::from_utf8(v) {
        Ok(s) => Ok(s),
        Err(_) => Err(NgxError::InvalidUtf8),
    }
}

/// Relies on `String::from_utf8_lossy`: the result depends on the bytes
/// alone; well-formed input decodes exactly, empty input gives an empty
/// string, and each ill-formed sequence is replaced with U+FFFD.
#[verifier::external_body]
fn utf8_to_string_lossy(v: &Vec<u8>) -> (r: String)
    ensures
        r@ == lossy_of(v@),
        valid_utf8(v@) ==> r@ == decode_utf8(v@),
        v@.len() == 0 ==> r@.len() == 0,
        !valid_utf8(v@) ==> r@.contains('\u{FFFD}'),
{
    String::from_utf8_lossy(v.as_slice()).into_owned()
}

impl ngx_str_t {
    /// The unset view: null pointer, zero length, empty denotation.
    pub fn empty() -> (s: ngx_str_t)
        ensures
            s@ == Seq::<u8>::empty(),
            s.data is None,
            s.len == 0,
    {
        ngx_str_t { data: None, len: 0 }
    }

    /// Copies `data`'s UTF-8 bytes into the arena and wraps them. Succeeds
    /// exactly when the pool still has that many units; on failure the pool
    /// is untouched.
    pub fn from_string(pool: &mut ngx_pool_t, data: String) -> (r: Result<ngx_str_t, NgxError>)
        ensures
            r is Ok <==> encode_utf8(data@).len() <= old(pool).spec_remaining(),
            r matches Ok(s) ==> s@ == encode_utf8(data@) && final(pool).spec_remaining() == old(
                pool,
            ).spec_remaining() - encode_utf8(data@).len(),
            r is Err ==> *final(pool) == *old(pool) && r == Err::<ngx_str_t, NgxError>(
                NgxError::AllocationFailed,
            ),
    {
        let bytes = data.as_str().as_bytes_vec();
        Self::from_bytes(pool, bytes)
    }

    /// Copies the given bytes into the arena and wraps them. Succeeds
    /// exactly when the pool still has `bytes.len()` units; on failure the
    /// pool is untouched.
    pub fn from_bytes(pool: &mut ngx_pool_t, bytes: Vec<u8>) -> (r: Result<ngx_str_t, NgxError>)
        ensures
            r is Ok <==> bytes@.len() <= old(pool).spec_remaining(),
            r matches Ok(s) ==> s@ == bytes@ && final(pool).spec_remaining() == old(
                pool,
            ).spec_remaining() - bytes@.len(),
            r is Err ==> *final(pool) == *old(pool) && r == Err::<ngx_str_t, NgxError>(
                NgxError::AllocationFailed,
            ),
    {
        match pool.allocate(bytes.len()) {
            Ok(()) => {
                let n = bytes.len();
                let s = ngx_str_t { data: Some(bytes), len: n };
                proof {
                    assert(s@ =~= s.data.unwrap()@);
                }
                Ok(s)
            },
            Err(e) => Err(e),
        }
    }

    /// How many bytes the view denotes.
    pub fn byte_len(&self) -> (r: usize)
        ensures
            r == self@.len(),
    {
        match &self.data {
            Option::None => 0,
            Option::Some(d) => {
                if self.len <= d.len() {
                    self.len
                } else {
                    d.len()
                }
            },
        }
    }

    /// The bytes the view denotes, as a fresh vector.
    pub fn to_bytes(&self) -> (r: Vec<u8>)
        ensures
            r@ == self@,
    {
        match &self.data {
            Option::None => Vec::new(),
            Option::Some(d) => {
                let n = if self.len <= d.len() {
                    self.len
                } else {
                    d.len()
                };
                let mut out: Vec<u8> = Vec::new();
                let mut i: usize = 0;
                while i < n
                    invariant
                        i <= n,
                        n <= d@.len(),
                        n as int == self@.len(),
                        out@ =~= self@.take(i as int),
                        forall|j: int| 0 <= j < n ==> self@[j] == d@[j],
                    decreases n - i,
                {
                    out.push(d[i]);
                    proof {
                        assert(out@ =~= self@.take(i + 1));
                    }
                    i = i + 1;
                }
                proof {
                    assert(out@ =~= self@);
                }
                out
            },
        }
    }

    /// Strict conversion of the view to a UTF-8 string. Succeeds exactly
    /// when the bytes are well-formed UTF-8, and then decodes them exactly:
    /// nothing is truncated, repaired or substituted. An empty or null view
    /// always converts, to the empty string.
    pub fn as_utf8(&self) -> (r: Result<String, NgxError>)
        ensures
            r is Ok <==> valid_utf8(self@),
            r matches Ok(s) ==> s@ == decode_utf8(self@),
            r is Err ==> r == Err::<String, NgxError>(NgxError::InvalidUtf8),
            self@.len() == 0 ==> r is Ok,
    {
        let bytes = self.to_bytes();
        utf8_to_string(bytes)
    }

    /// Lossy conversion of the view to a string: never fails, substitutes
    /// U+FFFD for each ill-formed sequence, and agrees with the strict
    /// conversion on well-formed input. An empty or null view gives the
    /// empty string.
    pub fn to_string_lossy(&self) -> (r: String)
        ensures
            r@ == lossy_of(self@),
            valid_utf8(self@) ==> r@ == decode_utf8(self@),
            self@.len() == 0 ==> r@.len() == 0,
            !valid_utf8(self@) ==> r@.contains('\u{FFFD}'),
    {
        let bytes = self.to_bytes();
        utf8_to_string_lossy(&bytes)
    }

    /// Raw byte equality of two views, independent of UTF-8 validity.
    pub fn bytes_eq(&self, other: &ngx_str_t) -> (r: bool)
        ensures
            r == (self@ == other@),
    {
        let a = self.to_bytes();
        let b = other.to_bytes();
        if a.len() != b.len() {
            proof {
                assert(self@.len() != other@.len());
            }
            return false;
        }
        let n = a.len();
        let mut i: usize = 0;
        while i < n
            invariant
                i <= n,
                n == a@.len() == b@.len(),
                a@ == self@,
                b@ == other@,
                forall|j: int| 0 <= j < i ==> a@[j] == b@[j],
            decreases n - i,
        {
            if a[i] != b[i] {
                proof {
                    assert(self@[i as int] != other@[i as int]);
                }
                return false;
            }
            i = i + 1;
        }
        proof {
            assert(self@ =~= other@);
        }
        true
    }
}

/// Every view whose length is zero or whose pointer is null denotes the
/// empty byte sequence, which is well-formed UTF-8 and decodes to the empty
/// string: together with the contracts of `as_utf8` and `to_string_lossy`,
/// both conversion paths of such a view yield an empty string and neither
/// can fail.
pub proof fn lemma_empty_view_converts(s: ngx_str_t)
    requires
        s.len == 0 || s.data is None,
    ensures
        s@ =~= Seq::<u8>::empty(),
        valid_utf8(s@),
        decode_utf8(s@) =~= Seq::<char>::empty(),
{
    assert(s@ =~= Seq::<u8>::empty());
}

} // verus!
