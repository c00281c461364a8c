use crate::error::NgxError;
use crate::ngx_str::lossy_of;
use crate::ngx_str::ngx_str_t;
use vstd::prelude::*;
use vstd::string::StringExecFns;
use vstd::utf8::decode_utf8;
use vstd::utf8::valid_utf8;

verus! {

/// What one buffer descriptor points at.
///
/// A flat struct with flag bits deciding whether the pointer range or the
/// file range is meaningful would let the two readings disagree. The
/// choice is a tagged variant instead, so a descriptor is in-memory
/// exactly when it carries bytes and the size formula can never be applied
/// to the wrong half.
#[derive(Clone, Debug)]
pub enum BufStorage {
    /// An in-memory range: the readable window `[pos, last)` of an arena
    /// block, plus which kind of memory backs it (temporary, shared, or
    /// memory-mapped).
    Memory { bytes: ngx_str_t, temporary: bool, shared: bool, mapped: bool },
    /// A file-backed range: byte offsets `[file_pos, file_last)` of a file
    /// the I/O layer will read at flush time; only the offsets live here.
    File { file_pos: u64, file_last: u64 },
}

/// One buffer descriptor: a storage range plus the payload-level marks the
/// producer and the I/O layer exchange. The chain traversal itself never
/// interprets the marks.
#[derive(Clone, Debug)]
pub struct ngx_buf_t {
    pub storage: BufStorage,
    pub recycled: bool,
    pub flush: bool,
    pub sync: bool,
    pub last_buf: bool,
    pub last_in_chain: bool,
    pub last_shadow: bool,
}

impl ngx_buf_t {
    /// Bytes the descriptor contributes: the window length for an in-memory
    /// descriptor (0 when its pointers are null), `file_last - file_pos`
    /// for a file-backed one — clamped to 0 rather than underflowing when a
    /// caller put the offsets in the wrong order.
    pub open spec fn spec_size(&self) -> int {
        match self.storage {
            BufStorage::Memory { bytes, .. } => bytes@.len() as int,
            BufStorage::File { file_pos, file_last } => if file_pos <= file_last {
                file_last - file_pos
            } else {
                0
            },
        }
    }

    /// The decoded in-memory content; a file-backed descriptor carries no
    /// bytes of its own.
    pub open spec fn spec_content(&self) -> Seq<u8> {
        match self.storage {
            BufStorage::Memory { bytes, .. } => bytes@,
            BufStorage::File { .. } => Seq::empty(),
        }
    }

    /// Whether the descriptor's payload is in memory — exactly when it
    /// holds a `Memory` storage, the same test its size formula goes by.
    pub fn in_memory(&self) -> (r: bool)
        ensures
            r == (self.storage is Memory),
    {
        match &self.storage {
            BufStorage::Memory { .. } => true,
            BufStorage::File { .. } => false,
        }
    }

    /// The descriptor's size in bytes, per `spec_size`: never negative and
    /// never read out of a null window.
    pub fn size(&self) -> (r: u64)
        ensures
            r == self.spec_size(),
    {
        match &self.storage {
            BufStorage::Memory { bytes, .. } => {
                let n = bytes.byte_len();
                n as u64
            },
            BufStorage::File { file_pos, file_last } => {
                if *file_pos <= *file_last {
                    *file_last - *file_pos
                } else {
                    0
                }
            },
        }
    }

    /// Strict conversion of the in-memory content to a string: succeeds
    /// exactly when the content is well-formed UTF-8 (a file-backed
    /// descriptor has empty content and always converts).
    pub fn to_string(&self) -> (r: Result<String, NgxError>)
        ensures
            r is Ok <==> valid_utf8(self.spec_content()),
            r matches Ok(s) ==> s@ == decode_utf8(self.spec_content()),
            r is Err ==> r == Err::<String, NgxError>(NgxError::InvalidUtf8),
    {
        match &self.storage {
            BufStorage::Memory { bytes, .. } => bytes.as_utf8(),
            BufStorage::File { .. } => Ok(String::new()),
        }
    }

    /// Human-readable rendering of the in-memory content, decoded
    /// leniently; for diagnostics only. A file-backed descriptor renders as
    /// the empty string.
    pub fn render(&self) -> (r: String)
        ensures
            self.storage is Memory ==> r@ == lossy_of(self.spec_content()),
            !(self.storage is Memory) ==> r@.len() == 0,
    {
        match &self.storage {
            BufStorage::Memory { bytes, .. } => bytes.to_string_lossy(),
            BufStorage::File { .. } => String::new(),
        }
    }
}

/// What one descriptor shows in a diagnostic rendering.
pub open spec fn spec_buf_render(b: ngx_buf_t) -> Seq<char> {
    match b.storage {
        BufStorage::Memory { bytes, .. } => lossy_of(bytes@),
        BufStorage::File { .. } => Seq::empty(),
    }
}

/// One link of a buffer chain: a descriptor and the link to the rest.
/// A chain is a non-empty linked sequence of descriptors representing one
/// logical payload in emission order; it is walked front to back and only
/// ever grows by appending at the tail.
pub struct ngx_chain_t {
    pub buf: ngx_buf_t,
    pub next: Option<Box<ngx_chain_t>>,
}

/// The descriptors of a chain, front to back.
pub open spec fn chain_bufs(c: ngx_chain_t) -> Seq<ngx_buf_t>
    decreases c,
{
    match c.next {
        Option::None => seq![c.buf],
        Option::Some(n) => seq![c.buf] + chain_bufs(*n),
    }
}

/// Total bytes of a chain: the sum of its descriptors' sizes.
pub open spec fn chain_size(c: ngx_chain_t) -> int
    decreases c,
{
    match c.next {
        Option::None => c.buf.spec_size(),
        Option::Some(n) => c.buf.spec_size() + chain_size(*n),
    }
}

/// Sum of descriptor sizes over a sequence of descriptors.
pub open spec fn sizes_sum(bs: Seq<ngx_buf_t>) -> int
    decreases bs.len(),
{
    if bs.len() == 0 {
        0
    } else {
        bs[0].spec_size() + sizes_sum(bs.drop_first())
    }
}

/// Buffer chain size additivity: the total size of a chain is exactly the
/// sum of the sizes of the descriptors its traversal yields, in order.
pub proof fn lemma_chain_size_additive(c: ngx_chain_t)
    ensures
        chain_size(c) == sizes_sum(chain_bufs(c)),
    decreases c,
{
    match c.next {
        Option::None => {
            assert(chain_bufs(c).drop_first() =~= Seq::<ngx_buf_t>::empty());
            assert(sizes_sum(Seq::<ngx_buf_t>::empty()) == 0);
            assert(chain_bufs(c)[0] == c.buf);
        },
        Option::Some(n) => {
            lemma_chain_size_additive(*n);
            assert(chain_bufs(c).drop_first() =~= chain_bufs(*n));
            assert(chain_bufs(c)[0] == c.buf);
        },
    }
}

/// The diagnostic rendering of a chain: each descriptor's rendering in
/// chain order, each followed by a line break.
pub open spec fn spec_chain_render(c: ngx_chain_t) -> Seq<char>
    decreases c,
{
    match c.next {
        Option::None => spec_buf_render(c.buf) + seq!['\n'],
        Option::Some(n) => spec_buf_render(c.buf) + seq!['\n'] + spec_chain_render(*n),
    }
}

impl ngx_chain_t {
    /// A chain of one descriptor.
    pub fn single(buf: ngx_buf_t) -> (c: ngx_chain_t)
        ensures
            chain_bufs(c) =~= seq![buf],
    {
        ngx_chain_t { buf, next: None }
    }

    /// Links a new descriptor after the current tail; emission order is
    /// preserved and nothing already linked moves.
    pub fn append(&mut self, buf: ngx_buf_t)
        ensures
            chain_bufs(*final(self)) == chain_bufs(*old(self)).push(buf),
        decreases *old(self),
    {
        match &mut self.next {
            Option::None => {
                self.next = Some(Box::new(ngx_chain_t { buf, next: None }));
            },
            Option::Some(n) => {
                n.append(buf);
            },
        }
        proof {
            if old(self).next is None {
                assert(self.next is Some);
                assert(chain_bufs(*self.next.unwrap()) =~= seq![buf]);
                assert(chain_bufs(*self) == seq![self.buf] + chain_bufs(*self.next.unwrap()));
                assert(chain_bufs(*old(self)) == seq![old(self).buf]);
                assert(chain_bufs(*self) =~= chain_bufs(*old(self)).push(buf));
            } else {
                assert(self.next is Some);
                assert(chain_bufs(*self.next.unwrap()) == chain_bufs(
                    *old(self).next.unwrap(),
                ).push(buf));
                assert(chain_bufs(*self) == seq![self.buf] + chain_bufs(*self.next.unwrap()));
                assert(chain_bufs(*old(self)) == seq![old(self).buf] + chain_bufs(
                    *old(self).next.unwrap(),
                ));
                assert(chain_bufs(*self) =~= chain_bufs(*old(self)).push(buf));
            }
        }
    }

    /// Total bytes the chain describes, walked front to back; saturates at
    /// the integer limit instead of overflowing.
    pub fn total_size(&self) -> (r: u64)
        ensures
            chain_size(*self) <= u64::MAX ==> r == chain_size(*self),
            chain_size(*self) > u64::MAX ==> r == u64::MAX,
        decreases *self,
    {
        let s = self.buf.size();
        match &self.next {
            Option::None => s,
            Option::Some(n) => {
                let rest = n.total_size();
                if s > u64::MAX - rest {
                    u64::MAX
                } else {
                    s + rest
                }
            },
        }
    }

    /// Diagnostic rendering of the whole chain: each descriptor's decoded
    /// in-memory content in chain order, one per line. Never used on the
    /// hot path.
    pub fn render(&self) -> (r: String)
        ensures
            r@ == spec_chain_render(*self),
        decreases *self,
    {
        let mut out = self.buf.render();
        out.append("\n");
        proof {
            reveal_strlit("\n");
            assert("\n"@ =~= seq!['\n']);
            assert(out@ =~= spec_buf_render(self.buf) + seq!['\n']);
        }
        match &self.next {
            Option::None => {
                proof {
                    assert(out@ =~= spec_chain_render(*self));
                }
                out
            },
            Option::Some(n) => {
                let rest = n.render();
                out.append(rest.as_str());
                proof {
                    assert(out@ =~= spec_chain_render(*self));
                }
                out
            },
        }
    }
}

} // verus!
