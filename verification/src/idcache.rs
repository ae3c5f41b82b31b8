//! Bounded FIFO set of recently seen sample identifiers, used by the
//! gateway to suppress duplicate uploads when the same original sample
//! arrives over more than one relay path.
//!
//! The cache keeps at most its capacity of identifiers, in insertion order;
//! when full, the oldest entry leaves first, independent of lookups.

use vstd::prelude::*;

verus! {

/// What one insertion does to the cache contents: append at the back and,
/// if the capacity is now exceeded, evict the front.
pub open spec fn push_evict(s: Seq<Seq<u8>>, id: Seq<u8>, cap: nat) -> Seq<Seq<u8>> {
    let t = s.push(id);
    if t.len() > cap {
        t.drop_first()
    } else {
        t
    }
}

/// The contents after inserting each of `ids` in order.
pub open spec fn add_all(s: Seq<Seq<u8>>, ids: Seq<Seq<u8>>, cap: nat) -> Seq<Seq<u8>>
    decreases ids.len(),
{
    if ids.len() == 0 {
        s
    } else {
        add_all(push_evict(s, ids[0], cap), ids.drop_first(), cap)
    }
}

/// Bounded FIFO set of identifiers.
pub struct IdCache {
    ids: Vec<Vec<u8>>,
    size: usize,
}

impl View for IdCache {
    type V = Seq<Seq<u8>>;

    closed spec fn view(&self) -> Seq<Seq<u8>> {
        self.ids@.map_values(|v: Vec<u8>| v@)
    }
}

/// Compares two byte strings.
pub fn bytes_eq(a: &[u8], b: &[u8]) -> (r: bool)
    ensures
        r == (a@ == b@),
{
    if a.len() != b.len() {
        proof {
            assert(a@ != b@) by {
                if a@ == b@ {
                    assert(a@.len() == b@.len());
                }
            }
        }
        return false;
    }
    let mut i: usize = 0;
    while i < a.len()
        invariant
            i <= a@.len(),
            a@.len() == b@.len(),
            forall|k: int| 0 <= k < i ==> a@[k] == b@[k],
        decreases a@.len() - i,
    {
        if a[i] != b[i] {
            return false;
        }
        i += 1;
    }
    proof {
        assert(a@ =~= b@);
    }
    true
}

impl IdCache {
    /// The most identifiers the cache will hold.
    pub closed spec fn capacity(&self) -> nat {
        self.size as nat
    }

    /// The cache never holds more than its capacity.
    pub open spec fn wf(&self) -> bool {
        self@.len() <= self.capacity()
    }

    /// An empty cache that will hold at most `size` identifiers.
    pub fn new(size: usize) -> (r: IdCache)
        ensures
            r@ == Seq::<Seq<u8>>::empty(),
            r.capacity() == size,
            r.wf(),
    {
        let r = IdCache { ids: Vec::new(), size };
        proof {
            assert(r@ =~= Seq::<Seq<u8>>::empty());
        }
        r
    }

    /// Appends `id` at the back; if the cache then exceeds its capacity,
    /// the oldest identifier is evicted.
    pub fn add(&mut self, id: &[u8])
        requires
            old(self).wf(),
        ensures
            final(self)@ == push_evict(old(self)@, id@, old(self).capacity()),
            final(self).capacity() == old(self).capacity(),
            final(self).wf(),
    {
        let v = vstd::slice::slice_to_vec(id);
        self.ids.push(v);
        proof {
            assert(self.ids@.map_values(|v: Vec<u8>| v@) =~= old(self)@.push(id@));
        }
        if self.ids.len() > self.size {
            let ghost before = self.ids@;
            self.ids.remove(0);
            proof {
                assert(self.ids@ =~= before.drop_first());
                assert(self.ids@.map_values(|v: Vec<u8>| v@) =~= before.map_values(
                    |v: Vec<u8>| v@,
                ).drop_first());
            }
        }
    }

    /// Whether `id` is one of the recently seen identifiers.
    pub fn contains(&self, id: &[u8]) -> (r: bool)
        ensures
            r == self@.contains(id@),
    {
        let mut i: usize = 0;
        while i < self.ids.len()
            invariant
                i <= self.ids@.len(),
                forall|k: int| 0 <= k < i ==> self@[k] != id@,
            decreases self.ids@.len() - i,
        {
            if bytes_eq(self.ids[i].as_slice(), id) {
                proof {
                    assert(self@[i as int] == id@);
                }
                return true;
            }
            i += 1;
        }
        proof {
            if self@.contains(id@) {
                let k = choose|k: int| 0 <= k < self@.len() && self@[k] == id@;
                assert(self@[k] != id@);
            }
        }
        false
    }
}

proof fn lemma_add_all_suffix(s: Seq<Seq<u8>>, ids: Seq<Seq<u8>>, cap: nat)
    requires
        s.len() <= cap,
    ensures
        add_all(s, ids, cap) == (s + ids).skip(
            if s.len() + ids.len() <= cap {
                0
            } else {
                s.len() + ids.len() - cap
            },
        ),
    decreases ids.len(),
{
    if ids.len() == 0 {
        assert((s + ids).skip(0) =~= s);
    } else {
        let s1 = push_evict(s, ids[0], cap);
        lemma_add_all_suffix(s1, ids.drop_first(), cap);
        if s.len() + 1 <= cap {
            assert(s1 == s.push(ids[0]));
            assert(s1 + ids.drop_first() =~= s + ids);
        } else {
            assert(s.len() == cap);
            assert(s1 == s.push(ids[0]).drop_first());
            assert(s1 + ids.drop_first() =~= (s + ids).drop_first());
            let total = s.len() + ids.len();
            let k = if total - 1 <= cap {
                0
            } else {
                total - 1 - cap
            };
            assert((s + ids).drop_first().skip(k as int) =~= (s + ids).skip(k + 1));
        }
    }
}

/// FIFO bound of the cache: after inserting any number of distinct
/// identifiers into an empty cache, exactly the most recent `cap` of them
/// are still present and every earlier one has been evicted.
pub proof fn lemma_dedup_fifo_bound(ids: Seq<Seq<u8>>, cap: nat)
    requires
        forall|i: int, j: int| 0 <= i < j < ids.len() ==> ids[i] != ids[j],
    ensures
        forall|i: int|
            0 <= i < ids.len() && i + cap >= ids.len() ==> #[trigger] add_all(
                Seq::empty(),
                ids,
                cap,
            ).contains(ids[i]),
        forall|i: int|
            0 <= i < ids.len() && i + cap < ids.len() ==> !(#[trigger] add_all(
                Seq::empty(),
                ids,
                cap,
            ).contains(ids[i])),
{
    let kept = add_all(Seq::empty(), ids, cap);
    let start = if ids.len() <= cap {
        0
    } else {
        ids.len() - cap
    };
    lemma_add_all_suffix(Seq::empty(), ids, cap);
    assert(Seq::<Seq<u8>>::empty() + ids =~= ids);
    assert(kept == ids.skip(start as int));
    assert forall|i: int| 0 <= i < ids.len() && i + cap >= ids.len() implies #[trigger] kept.contains(
        ids[i],
    ) by {
        assert(kept[i - start as int] == ids[i]);
    }
    assert forall|i: int| 0 <= i < ids.len() && i + cap < ids.len() implies !(#[trigger] kept.contains(
        ids[i],
    )) by {
        if kept.contains(ids[i]) {
            let j = choose|j: int| 0 <= j < kept.len() && kept[j] == ids[i];
            assert(ids[start as int + j] == ids[i]);
        }
    }
}

} // verus!
