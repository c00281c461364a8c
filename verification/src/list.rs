use crate::error::NgxError;
use crate::pool::ngx_pool_t;
use vstd::prelude::*;

verus! {

/// All records of the given segments, in segment order: segment 0's records
/// first, then segment 1's, and so on.
pub open spec fn flat<T>(ps: Seq<Seq<T>>) -> Seq<T>
    decreases ps.len(),
{
    if ps.len() == 0 {
        Seq::empty()
    } else {
        flat(ps.drop_last()) + ps.last()
    }
}

/// How many records stand before segment `k`.
pub open spec fn prefix_len<T>(ps: Seq<Seq<T>>, k: int) -> int {
    flat(ps.take(k)).len() as int
}

proof fn lemma_flat_take_succ<T>(ps: Seq<Seq<T>>, k: int)
    requires
        0 <= k < ps.len(),
    ensures
        flat(ps.take(k + 1)) == flat(ps.take(k)) + ps[k],
        prefix_len(ps, k + 1) == prefix_len(ps, k) + ps[k].len(),
{
    assert(ps.take(k + 1).drop_last() =~= ps.take(k));
    assert(ps.take(k + 1).last() == ps[k]);
}

proof fn lemma_flat_take_full<T>(ps: Seq<Seq<T>>)
    ensures
        flat(ps.take(ps.len() as int)) == flat(ps),
        prefix_len(ps, ps.len() as int) == flat(ps).len(),
{
    assert(ps.take(ps.len() as int) =~= ps);
}

proof fn lemma_flat_index<T>(ps: Seq<Seq<T>>, k: int, j: int)
    requires
        0 <= k < ps.len(),
        0 <= j < ps[k].len(),
    ensures
        0 <= prefix_len(ps, k) + j < flat(ps).len(),
        flat(ps)[prefix_len(ps, k) + j] == ps[k][j],
    decreases ps.len(),
{
    if k == ps.len() - 1 {
        assert(ps.take(k) =~= ps.drop_last());
        assert(flat(ps) == flat(ps.drop_last()) + ps.last());
    } else {
        lemma_flat_index(ps.drop_last(), k, j);
        assert(ps.drop_last().take(k) =~= ps.take(k));
        assert(flat(ps) == flat(ps.drop_last()) + ps.last());
    }
}

proof fn lemma_flat_update<T>(ps: Seq<Seq<T>>, k: int, j: int, v: T)
    requires
        0 <= k < ps.len(),
        0 <= j < ps[k].len(),
    ensures
        flat(ps.update(k, ps[k].update(j, v))) =~= flat(ps).update(prefix_len(ps, k) + j, v),
    decreases ps.len(),
{
    let ps2 = ps.update(k, ps[k].update(j, v));
    lemma_flat_index(ps, k, j);
    if k == ps.len() - 1 {
        assert(ps2.drop_last() =~= ps.drop_last());
        assert(ps2.last() == ps[k].update(j, v));
        assert(ps.take(k) =~= ps.drop_last());
        assert(flat(ps2) =~= flat(ps).update(prefix_len(ps, k) + j, v));
    } else {
        lemma_flat_update(ps.drop_last(), k, j, v);
        assert(ps.drop_last()[k] == ps[k]);
        assert(ps2.drop_last() =~= ps.drop_last().update(k, ps[k].update(j, v)));
        assert(ps2.last() == ps.last());
        assert(ps.drop_last().take(k) =~= ps.take(k));
        lemma_flat_index(ps.drop_last(), k, j);
        assert(flat(ps2) =~= flat(ps).update(prefix_len(ps, k) + j, v));
    }
}

/// A growable, append-only sequence of records stored in fixed-capacity
/// segments linked in order.
///
/// The first segment is allocated at creation; a `push` that finds the last
/// segment full allocates a fresh segment of the same capacity and links it
/// at the end. Records are never removed, reordered or moved: a reference
/// into an early segment stays valid — and keeps its value — however many
/// segments are appended later, which is the structure's reason to exist.
pub struct ngx_list_t<T> {
    parts: Vec<Vec<T>>,
    nalloc: usize,
}

impl<T> View for ngx_list_t<T> {
    type V = Seq<T>;

    /// The records of the list, in insertion order.
    closed spec fn view(&self) -> Seq<T> {
        flat(self.segments())
    }
}

impl<T> ngx_list_t<T> {
    /// The segments of the list, each as the sequence of records it holds.
    pub closed spec fn segments(&self) -> Seq<Seq<T>> {
        self.parts@.map_values(|p: Vec<T>| p@)
    }

    /// The fixed per-segment capacity the list was created with.
    pub closed spec fn spec_nalloc(&self) -> nat {
        self.nalloc as nat
    }

    /// Free record slots left in the last segment.
    pub closed spec fn spec_spare(&self) -> nat
        recommends
            self.wf(),
    {
        (self.nalloc - self.parts@.last()@.len()) as nat
    }

    /// Structural soundness: at least one segment, a positive capacity that
    /// every segment respects, every segment but the last filled to
    /// capacity, and no empty trailing segment unless the list is one empty
    /// segment.
    pub closed spec fn wf(&self) -> bool {
        &&& self.nalloc >= 1
        &&& self.parts@.len() >= 1
        &&& forall|k: int|
            0 <= k < self.parts@.len() ==> (#[trigger] self.parts@[k])@.len() <= self.nalloc
        &&& forall|k: int|
            0 <= k < self.parts@.len() - 1 ==> (#[trigger] self.parts@[k])@.len() == self.nalloc
        &&& (self.parts@.len() > 1 ==> self.parts@.last()@.len() >= 1)
    }

    /// Creates a list whose first segment holds `n` record slots, taken from
    /// the pool. Succeeds exactly when the pool has `n` units left; on
    /// failure nothing is allocated and no list exists.
    pub fn create(pool: &mut ngx_pool_t, n: usize) -> (r: Result<ngx_list_t<T>, NgxError>)
        requires
            n >= 1,
        ensures
            r is Ok <==> n <= old(pool).spec_remaining(),
            r matches Ok(l) ==> l.wf() && l@ =~= Seq::<T>::empty() && l.spec_nalloc() == n
                && l.spec_spare() == n && final(pool).spec_remaining() == old(pool).spec_remaining() - n,
            r matches Err(e) ==> *final(pool) == *old(pool) && e == NgxError::AllocationFailed,
    {
        match pool.allocate(n) {
            Ok(()) => {
                let mut parts: Vec<Vec<T>> = Vec::new();
                parts.push(Vec::new());
                let l = ngx_list_t { parts, nalloc: n };
                proof {
                    assert(l.segments() =~= seq![Seq::<T>::empty()]);
                    assert(l.segments().drop_last() =~= Seq::<Seq<T>>::empty());
                    assert(flat(Seq::<Seq<T>>::empty()) =~= Seq::<T>::empty());
                    assert(l@ =~= Seq::<T>::empty());
                }
                Ok(l)
            },
            Err(e) => Err(e),
        }
    }

    /// Per-segment capacity, as configured at creation.
    pub fn capacity(&self) -> (r: usize)
        ensures
            r == self.spec_nalloc(),
    {
        self.nalloc
    }

    /// Free record slots left in the last segment; a push while this is
    /// positive needs no arena allocation.
    pub fn spare(&self) -> (r: usize)
        requires
            self.wf(),
        ensures
            r == self.spec_spare(),
    {
        self.nalloc - self.parts[self.parts.len() - 1].len()
    }

    /// Appends one record. If the last segment has a spare slot the record
    /// goes there and the pool is untouched; otherwise a fresh segment of
    /// the configured capacity is taken from the pool and the record becomes
    /// its first entry. Succeeds exactly when a spare slot exists or the
    /// pool can pay for a segment; on failure the list and the pool are
    /// exactly as they were — no partial segment is linked.
    pub fn push(&mut self, pool: &mut ngx_pool_t, value: T) -> (r: Result<(), NgxError>)
        requires
            old(self).wf(),
        ensures
            final(self).wf(),
            final(self).spec_nalloc() == old(self).spec_nalloc(),
            r is Ok <==> (old(self).spec_spare() > 0 || old(self).spec_nalloc() <= old(pool).spec_remaining()),
            r is Ok ==> final(self)@ == old(self)@.push(value),
            r is Ok && old(self).spec_spare() > 0 ==> *final(pool) == *old(pool) && final(self).spec_spare() == old(self).spec_spare() - 1,
            r is Ok && old(self).spec_spare() == 0 ==> final(pool).spec_remaining() == old(pool).spec_remaining() - old(self).spec_nalloc() && final(self).spec_spare() == old(self).spec_nalloc() - 1,
            r matches Err(e) ==> *final(self) == *old(self) && *final(pool) == *old(pool) && e
                == NgxError::AllocationFailed,
    {
        let last = self.parts.len() - 1;
        if self.parts[last].len() < self.nalloc {
            let mut part = self.parts.pop().unwrap();
            part.push(value);
            self.parts.push(part);
            proof {
                let ghost ops = old(self).segments();
                assert(self.segments() =~= ops.drop_last().push(ops.last().push(value)));
                assert(self.segments().drop_last() =~= ops.drop_last());
                assert(flat(self.segments()) == flat(ops.drop_last()) + ops.last().push(value));
                assert(flat(ops) == flat(ops.drop_last()) + ops.last());
                assert(flat(ops.drop_last()) + ops.last().push(value) =~= (flat(ops.drop_last())
                    + ops.last()).push(value));
                assert(self@ == old(self)@.push(value));
            }
            Ok(())
        } else {
            match pool.allocate(self.nalloc) {
                Ok(()) => {
                    let mut seg: Vec<T> = Vec::new();
                    seg.push(value);
                    self.parts.push(seg);
                    proof {
                        let ghost ops = old(self).segments();
                        assert(self.segments() =~= ops.push(seq![value]));
                        assert(self.segments().drop_last() =~= ops);
                        assert(flat(self.segments()) == flat(ops) + seq![value]);
                        assert(flat(ops) + seq![value] =~= flat(ops).push(value));
                        assert(self@ == old(self)@.push(value));
                    }
                    Ok(())
                },
                Err(e) => Err(e),
            }
        }
    }

    /// Finds the segment and in-segment offset of position `i`.
    fn locate(&self, i: usize) -> (r: (usize, usize))
        requires
            self.wf(),
            i < self@.len(),
        ensures
            r.0 < self.segments().len(),
            r.1 < self.segments()[r.0 as int].len(),
            prefix_len(self.segments(), r.0 as int) + r.1 == i,
    {
        let mut k: usize = 0;
        let mut j: usize = i;
        let n_parts = self.parts.len();
        proof {
            assert(self.segments().take(0) =~= Seq::<Seq<T>>::empty());
        }
        while j >= self.parts[k].len()
            invariant
                self.wf(),
                i < self@.len(),
                n_parts == self.parts@.len(),
                k < n_parts,
                prefix_len(self.segments(), k as int) + j == i,
            decreases self.parts@.len() - k,
        {
            proof {
                lemma_flat_take_succ(self.segments(), k as int);
                if k + 1 == self.parts@.len() {
                    lemma_flat_take_full(self.segments());
                    assert(false);
                }
            }
            j = j - self.parts[k].len();
            k = k + 1;
        }
        (k, j)
    }

    /// Reads the record at position `i` in insertion order. Later pushes
    /// never change what this returns for an already-filled position.
    pub fn get(&self, i: usize) -> (r: &T)
        requires
            self.wf(),
            i < self@.len(),
        ensures
            *r == self@[i as int],
    {
        let (k, j) = self.locate(i);
        proof {
            lemma_flat_index(self.segments(), k as int, j as int);
        }
        &self.parts[k][j]
    }

    /// Rewrites the already-reserved slot at position `i` in place. No
    /// record moves, no segment is allocated, and the other records are
    /// untouched.
    pub fn set(&mut self, i: usize, value: T)
        requires
            old(self).wf(),
            i < old(self)@.len(),
        ensures
            final(self).wf(),
            final(self)@ == old(self)@.update(i as int, value),
            final(self).spec_nalloc() == old(self).spec_nalloc(),
            final(self).spec_spare() == old(self).spec_spare(),
    {
        let (k, j) = self.locate(i);
        self.parts[k][j] = value;
        proof {
            let ghost ops = old(self).segments();
            assert(self.segments() =~= ops.update(k as int, ops[k as int].update(j as int, value)));
            lemma_flat_update(ops, k as int, j as int, value);
            assert(self@ =~= old(self)@.update(i as int, value));
        }
    }

    /// A full traversal in a fresh vector: exactly the pushed records, in
    /// push order, however they fall across segment boundaries.
    pub fn to_vec(&self) -> (r: Vec<T>) where T: Copy
        requires
            self.wf(),
        ensures
            r@ == self@,
    {
        let mut out: Vec<T> = Vec::new();
        let mut it = ListIterator::from_ngx_list(self);
        loop
            invariant
                self.wf(),
                it.valid(*self),
                0 <= it.spec_pos(*self) <= self@.len(),
                out@ =~= self@.take(it.spec_pos(*self)),
            decreases self@.len() - it.spec_pos(*self),
        {
            match it.next(self) {
                Some(t) => {
                    out.push(*t);
                    proof {
                        assert(out@ =~= self@.take(it.spec_pos(*self)));
                    }
                },
                None => {
                    proof {
                        assert(out@ =~= self@);
                    }
                    return out;
                },
            }
        }
    }
}

/// A cursor over a segmented list. A fresh iterator always starts at
/// segment 0, record 0; `next` walks each segment's records in order, then
/// follows the link to the next segment, and yields `None` once every
/// record has been produced. It never mutates the list.
pub struct ListIterator {
    part: usize,
    i: usize,
}

impl ListIterator {
    /// How many records the iterator has already yielded: its position in
    /// insertion order.
    pub closed spec fn spec_pos<T>(&self, list: ngx_list_t<T>) -> int {
        prefix_len(list.segments(), self.part as int) + self.i
    }

    /// The cursor points at a record of `list`, or just past its end.
    pub closed spec fn valid<T>(&self, list: ngx_list_t<T>) -> bool {
        &&& list.wf()
        &&& (self.part as int) < list.segments().len()
        &&& self.i <= list.segments()[self.part as int].len()
    }

    /// A fresh cursor on the given list, at the first record.
    pub fn from_ngx_list<T>(list: &ngx_list_t<T>) -> (it: ListIterator)
        requires
            list.wf(),
        ensures
            it.valid(*list),
            it.spec_pos(*list) == 0,
    {
        proof {
            assert(list.segments().take(0) =~= Seq::<Seq<T>>::empty());
        }
        ListIterator { part: 0, i: 0 }
    }

    /// Yields a reference to the record at the cursor's position in
    /// insertion order and advances, or `None` once the list is exhausted.
    /// A record crossing into a later segment is never skipped and never
    /// repeated.
    pub fn next<'a, T>(&mut self, list: &'a ngx_list_t<T>) -> (r: Option<&'a T>)
        requires
            old(self).valid(*list),
        ensures
            final(self).valid(*list),
            old(self).spec_pos(*list) < list@.len() ==> (r matches Some(t) && *t == list@[old(self).spec_pos(*list)] && final(self).spec_pos(*list) == old(self).spec_pos(*list) + 1),
            old(self).spec_pos(*list) >= list@.len() ==> r is None && *final(self) == *old(self),
    {
        if self.i >= list.parts[self.part].len() {
            let n_parts = list.parts.len();
            if self.part + 1 < n_parts {
                proof {
                    lemma_flat_take_succ(list.segments(), self.part as int);
                }
                self.part = self.part + 1;
                self.i = 0;
            } else {
                proof {
                    lemma_flat_take_succ(list.segments(), self.part as int);
                    lemma_flat_take_full(list.segments());
                }
                return None;
            }
        }
        proof {
            lemma_flat_index(list.segments(), self.part as int, self.i as int);
        }
        let r = &list.parts[self.part][self.i];
        self.i = self.i + 1;
        Some(r)
    }
}

proof fn lemma_flat_len_full_parts<T>(ps: Seq<Seq<T>>, c: int)
    requires
        ps.len() >= 1,
        c >= 1,
        forall|k: int| 0 <= k < ps.len() - 1 ==> (#[trigger] ps[k]).len() == c,
    ensures
        flat(ps).len() == (ps.len() - 1) * c + ps.last().len(),
    decreases ps.len(),
{
    if ps.len() == 1 {
        assert(ps.drop_last() =~= Seq::<Seq<T>>::empty());
        assert(flat(ps) == flat(Seq::<Seq<T>>::empty()) + ps.last());
    } else {
        lemma_flat_len_full_parts(ps.drop_last(), c);
        assert(ps.drop_last().last() == ps[ps.len() - 2]);
        assert(ps[ps.len() - 2].len() == c);
        assert(flat(ps) == flat(ps.drop_last()) + ps.last());
        assert((ps.len() - 2) * c + c == (ps.len() - 1) * c) by (nonlinear_arith);
    }
}

/// A push allocates a fresh segment exactly when every slot of every
/// segment is taken, and on a sound list that shows in the record count
/// alone: the spare count is zero precisely when the list holds a positive
/// multiple of its per-segment capacity.
pub proof fn lemma_push_allocates_iff<T>(l: ngx_list_t<T>)
    requires
        l.wf(),
    ensures
        l.spec_spare() == 0 <==> (l@.len() > 0 && (l@.len() as int) % (l.spec_nalloc() as int) == 0),
{
    let ps = l.segments();
    let c = l.spec_nalloc() as int;
    let p = ps.len() as int;
    let tail = ps.last().len() as int;
    assert forall|k: int| 0 <= k < p - 1 implies (#[trigger] ps[k]).len() == c by {
        assert(ps[k] == l.segments()[k]);
    }
    lemma_flat_len_full_parts(ps, c);
    assert(l@.len() == (p - 1) * c + tail);
    if tail == c {
        assert((p - 1) * c + c == p * c) by (nonlinear_arith);
        vstd::arithmetic::div_mod::lemma_mod_multiples_vanish(p, 0, c);
        vstd::arithmetic::div_mod::lemma_small_mod(0, c as nat);
        assert(c * p == p * c) by (nonlinear_arith);
        assert((l@.len() as int) % c == 0);
        assert(l@.len() > 0) by (nonlinear_arith)
            requires
                l@.len() == p * c,
                p >= 1,
                c >= 1,
        ;
    } else {
        if tail > 0 {
            vstd::arithmetic::div_mod::lemma_mod_multiples_vanish(p - 1, tail, c);
            assert(c * (p - 1) == (p - 1) * c) by (nonlinear_arith);
            vstd::arithmetic::div_mod::lemma_small_mod(tail as nat, c as nat);
            assert((l@.len() as int) % c == tail);
        } else {
            assert(p == 1);
            assert((p - 1) * c == 0) by (nonlinear_arith)
                requires
                    p == 1,
            ;
            assert(l@.len() == 0);
        }
    }
}

/// Stable references under growth: a push appends at the end and leaves
/// every record already stored at its position unchanged, so a reference
/// obtained before a boundary-crossing push still reads the same value
/// afterward.
pub proof fn lemma_push_keeps_records<T>(before: Seq<T>, after: Seq<T>, value: T, i: int)
    requires
        after == before.push(value),
        0 <= i < before.len(),
    ensures
        after[i] == before[i],
{
}

/// Empty-list iteration: on a freshly created list, which holds no records,
/// any valid cursor is already at the end, so `next` yields `None` rather
/// than an error.
pub proof fn lemma_empty_list_iteration<T>(it: ListIterator, list: ngx_list_t<T>)
    requires
        it.valid(list),
        list@.len() == 0,
    ensures
        it.spec_pos(list) >= list@.len(),
{
}

} // verus!
