//! The cache of decoded instructions, keyed by physical address: direct-mapped baskets of
//! sixteen entries each, replaced pseudo-LRU through accessed bits and a rotating hand.
use vstd::prelude::*;
use crate::decode::{Decoder, Instruction, decode_spec};
use crate::trap::Exception;

verus! {

pub const BASKET_WAYS: usize = 16;

#[derive(Clone, Copy, Debug)]
pub struct ICacheEntry {
    pub accessed: bool,
    pub tag: u64,
    pub insn: Option<(u32, Instruction)>,
}

/// Every valid entry holds what the registry `ds` decodes its word to.
pub open spec fn entry_decoded(e: ICacheEntry, ds: Seq<Decoder>) -> bool {
    match e.insn {
        None => true,
        Some(x) => decode_spec(ds, x.0) == Ok::<Instruction, Exception>(x.1),
    }
}

pub open spec fn entries_decoded(es: Seq<ICacheEntry>, ds: Seq<Decoder>) -> bool {
    forall|i: int| 0 <= i < es.len() ==> entry_decoded(#[trigger] es[i], ds)
}

pub open spec fn holds_tag(es: Seq<ICacheEntry>, tag: u64) -> bool {
    exists|i: int| 0 <= i < es.len() && (#[trigger] es[i]).tag == tag && es[i].insn is Some
}

/// How far back from `start` index `i` lies, around the sixteen entries.
pub open spec fn dist(start: int, i: int) -> int {
    (start - i + 16) % 16
}

/// The entry that an insertion replaces: scanning back from `p` (the tail) to `stop` (the
/// hand), the first one that is empty or not accessed; the hand's entry when none is.
pub open spec fn victim(es: Seq<ICacheEntry>, p: int, stop: int) -> int
    decreases (p - stop + 16) % 16,
{
    if p == stop || !(0 <= p < 16) || !(0 <= stop < 16) {
        stop
    } else if es[p].insn is None || !es[p].accessed {
        p
    } else {
        victim(es, (p + 15) % 16, stop)
    }
}

/// Whether entry `e` is a valid one for `tag`.
pub open spec fn entry_hits(e: ICacheEntry, tag: u64) -> bool {
    e.tag == tag && e.insn is Some
}

/// The entry that a lookup of `tag` hits: scanning forward from `p` (the hand) over `n` of the
/// sixteen entries, the first valid one with that tag.
pub open spec fn first_hit(es: Seq<ICacheEntry>, p: int, n: int, tag: u64) -> Option<int>
    decreases n,
{
    if n <= 0 || !(0 <= p < 16) {
        None
    } else if entry_hits(es[p], tag) {
        Some(p)
    } else {
        first_hit(es, (p + 1) % 16, n - 1, tag)
    }
}

pub proof fn lemma_first_hit(es: Seq<ICacheEntry>, p: int, n: int, tag: u64)
    requires
        0 <= p < 16,
        0 <= n <= 16,
    ensures
        first_hit(es, p, n, tag) matches Some(i) ==> 0 <= i < 16 && entry_hits(es[i], tag),
        first_hit(es, p, n, tag) is None <==> forall|j: int| 0 <= j < n ==> !entry_hits(#[trigger] es[(p + j) % 16], tag),
    decreases n,
{
    if n > 0 {
        let q = (p + 1) % 16;
        lemma_first_hit(es, q, n - 1, tag);
        assert((p + 0) % 16 == p);
        assert forall|j: int| 0 <= j < n - 1 implies #[trigger] es[(q + j) % 16] == es[(p + (j + 1)) % 16] by {
            assert((q + j) % 16 == (p + (j + 1)) % 16);
        }
        if first_hit(es, p, n, tag) is None {
            assert forall|j: int| 0 <= j < n implies !entry_hits(#[trigger] es[(p + j) % 16], tag) by {
                if j > 0 {
                    assert(es[(q + (j - 1)) % 16] == es[(p + j) % 16]);
                }
            }
        }
        if forall|j: int| 0 <= j < n ==> !entry_hits(#[trigger] es[(p + j) % 16], tag) {
            assert forall|j: int| 0 <= j < n - 1 implies !entry_hits(#[trigger] es[(q + j) % 16], tag) by {
                assert(!entry_hits(es[(p + (j + 1)) % 16], tag));
            }
        }
    }
}

/// What a lookup of `tag` does to a basket: it returns the first hit from the hand on, over all
/// sixteen entries, and moves the hand there marking it accessed; a miss leaves the hand. No
/// entry changes its tag or instruction.
pub open spec fn looked_up(old: ICacheBasket, new: ICacheBasket, tag: u64, r: Option<(u32, Instruction)>) -> bool {
    &&& new.wf()
    &&& forall|i: int| 0 <= i < 16 ==> (#[trigger] new.entries@[i]).tag == old.entries@[i].tag
        && new.entries@[i].insn == old.entries@[i].insn
    &&& (r is None <==> !holds_tag(old.entries@, tag))
    &&& match first_hit(old.entries@, old.ptr as int, 16, tag) {
        Some(i) => r == old.entries@[i].insn && new.ptr == i && new.entries@[i].accessed,
        None => r is None && new.ptr == old.ptr,
    }
}

/// What storing `(ir, insn)` under `tag` does to a basket: the victim entry takes it, accessed,
/// and the hand moves there; every other entry keeps its tag and instruction.
pub open spec fn inserted(old: ICacheBasket, new: ICacheBasket, tag: u64, ir: u32, insn: Instruction) -> bool {
    &&& new.wf()
    &&& new.ptr == victim(old.entries@, (old.ptr + 15) % 16, old.ptr as int)
    &&& new.entries@[new.ptr as int].tag == tag
    &&& new.entries@[new.ptr as int].insn == Some((ir, insn))
    &&& new.entries@[new.ptr as int].accessed
    &&& forall|k: int| 0 <= k < 16 && k != new.ptr ==> (#[trigger] new.entries@[k]).tag == old.entries@[k].tag
        && new.entries@[k].insn == old.entries@[k].insn
}

pub open spec fn basket_empty(b: ICacheBasket) -> bool {
    forall|k: int| 0 <= k < 16 ==> (#[trigger] b.entries@[k]).insn is None
}

pub struct ICacheBasket {
    pub ptr: u8,
    pub entries: Vec<ICacheEntry>,
}

impl ICacheBasket {
    pub open spec fn wf(&self) -> bool {
        self.entries@.len() == BASKET_WAYS && self.ptr < 16
    }

    pub fn new() -> (r: ICacheBasket)
        ensures
            r.wf(),
            r.ptr == 0,
            forall|i: int| 0 <= i < 16 ==> (#[trigger] r.entries@[i]).insn is None && !r.entries@[i].accessed,
    {
        let mut entries: Vec<ICacheEntry> = Vec::new();
        let mut i: usize = 0;
        while i < BASKET_WAYS
            invariant
                i <= BASKET_WAYS,
                entries@.len() == i,
                forall|j: int| 0 <= j < i ==> (#[trigger] entries@[j]).insn is None && !entries@[j].accessed,
            decreases BASKET_WAYS - i,
        {
            entries.push(ICacheEntry { accessed: false, tag: 0, insn: None });
            i = i + 1;
        }
        ICacheBasket { ptr: 0, entries }
    }

    pub fn next_ptr(p: u8) -> (r: u8)
        requires
            p < 16,
        ensures
            r < 16,
            r == (p + 1) % 16,
    {
        if p == 15 {
            0
        } else {
            p + 1
        }
    }

    pub fn prev_ptr(p: u8) -> (r: u8)
        requires
            p < 16,
        ensures
            r < 16,
            r == (p + 15) % 16,
    {
        if p == 0 {
            15
        } else {
            p - 1
        }
    }

    /// The entry just behind the hand.
    pub fn tail(&self) -> (r: u8)
        requires
            self.wf(),
        ensures
            r < 16,
            r == (self.ptr + 15) % 16,
    {
        Self::prev_ptr(self.ptr)
    }

    /// Looks `tag` up in all sixteen entries, from the hand on. On a hit the entry is marked
    /// accessed and the hand moves to it; every entry passed over has its accessed bit cleared.
    pub fn get_insn(&mut self, tag: u64) -> (r: Option<(u32, Instruction)>)
        requires
            old(self).wf(),
        ensures
            looked_up(*old(self), *final(self), tag, r),
            forall|ds: Seq<Decoder>| entries_decoded(old(self).entries@, ds) ==> entries_decoded(final(self).entries@, ds),
    {
        let start = self.ptr;
        let mut ptr = self.ptr;
        let mut k: u8 = 0;
        let ghost first = self.entries@;
        proof {
            lemma_first_hit(first, start as int, 16, tag);
        }
        while k < 16
            invariant
                self.wf(),
                k <= 16,
                ptr < 16,
                ptr as int == (start + k) % 16,
                first.len() == 16,
                first == old(self).entries@,
                start == old(self).ptr,
                forall|i: int| 0 <= i < 16 ==> (#[trigger] self.entries@[i]).tag == first[i].tag
                    && self.entries@[i].insn == first[i].insn,
                self.ptr == old(self).ptr,
                first_hit(first, start as int, 16, tag) == first_hit(first, ptr as int, 16 - k, tag),
                forall|j: int| 0 <= j < k ==> !entry_hits(#[trigger] first[(start + j) % 16], tag),
            decreases 16 - k,
        {
            let e = self.entries[ptr as usize];
            if e.tag == tag {
                if let Some(i) = e.insn {
                    self.entries.set(ptr as usize, ICacheEntry { accessed: true, ..e });
                    self.ptr = ptr;
                    proof {
                        assert(first[ptr as int].tag == tag && first[ptr as int].insn == Some(i));
                        assert forall|ds: Seq<Decoder>| entries_decoded(first, ds) implies entries_decoded(self.entries@, ds) by {
                            assert forall|j: int| 0 <= j < self.entries@.len() implies entry_decoded(#[trigger] self.entries@[j], ds) by {
                                assert(first[j].insn == self.entries@[j].insn);
                            }
                        }
                        assert(holds_tag(first, tag)) by {
                            assert(first[ptr as int].tag == tag && first[ptr as int].insn is Some);
                        }
                    }
                    return Some(i);
                }
            }
            proof {
                assert(!entry_hits(first[ptr as int], tag));
            }
            self.entries.set(ptr as usize, ICacheEntry { accessed: false, ..e });
            ptr = Self::next_ptr(ptr);
            k = k + 1;
        }
        proof {
            assert forall|ds: Seq<Decoder>| entries_decoded(first, ds) implies entries_decoded(self.entries@, ds) by {
                assert forall|j: int| 0 <= j < self.entries@.len() implies entry_decoded(#[trigger] self.entries@[j], ds) by {
                    assert(first[j].insn == self.entries@[j].insn);
                }
            }
            assert(!holds_tag(first, tag)) by {
                if holds_tag(first, tag) {
                    let i = choose|i: int| 0 <= i < first.len() && (#[trigger] first[i]).tag == tag && first[i].insn is Some;
                    let j = (i - start + 16) % 16;
                    assert((start + j) % 16 == i);
                    assert(!entry_hits(first[(start + j) % 16], tag));
                }
            }
        }
        None
    }

    #[verifier::rlimit(100)]
    /// Stores `(ir, insn)` under `tag`: scanning back from the tail, the first entry that is empty
    /// or not accessed is replaced (the one under the hand when none is), skipped entries lose
    /// their accessed bit, and the hand moves to the new entry.
    pub fn set_entry(&mut self, tag: u64, ir: u32, insn: Instruction)
        requires
            old(self).wf(),
        ensures
            final(self).wf(),
            forall|ds: Seq<Decoder>| entries_decoded(old(self).entries@, ds) && decode_spec(ds, ir) == Ok::<Instruction, Exception>(insn)
                ==> entries_decoded(final(self).entries@, ds),
            final(self).entries@[final(self).ptr as int].tag == tag,
            final(self).entries@[final(self).ptr as int].insn == Some((ir, insn)),
            final(self).entries@[final(self).ptr as int].accessed,
            final(self).ptr == victim(old(self).entries@, (old(self).ptr + 15) % 16, old(self).ptr as int),
            inserted(*old(self), *final(self), tag, ir, insn),
    {
        let mut ptr = self.tail();
        let tail = self.ptr;
        let ghost first = self.entries@;
        while ptr != tail
            invariant
                self.wf(),
                ptr < 16,
                tail < 16,
                first.len() == 16,
                first == old(self).entries@,
                forall|i: int| 0 <= i < 16 ==> (#[trigger] self.entries@[i]).tag == first[i].tag
                    && self.entries@[i].insn == first[i].insn,
                forall|i: int| 0 <= i < 16 && self.entries@[i].accessed ==> #[trigger] first[i].accessed,
                forall|i: int| 0 <= i < 16 && !first[i].accessed ==> !(#[trigger] self.entries@[i]).accessed,
                self.ptr == old(self).ptr,
                tail == old(self).ptr,
                victim(first, (old(self).ptr + 15) % 16, tail as int) == victim(first, ptr as int, tail as int),
                forall|i: int| 0 <= i < 16 && dist((old(self).ptr + 15) % 16, i) >= dist((old(self).ptr + 15) % 16, ptr as int)
                    ==> #[trigger] self.entries@[i] == first[i],
            ensures
                self.wf(),
                ptr < 16,
                first == old(self).entries@,
                forall|i: int| 0 <= i < 16 ==> (#[trigger] self.entries@[i]).tag == first[i].tag
                    && self.entries@[i].insn == first[i].insn,
                self.ptr == old(self).ptr,
                victim(first, (old(self).ptr + 15) % 16, old(self).ptr as int) == ptr as int,
            decreases (ptr + 16 - tail) % 16,
        {
            let e = self.entries[ptr as usize];
            if e.insn.is_none() || !e.accessed {
                proof {
                    assert(self.entries@[ptr as int] == first[ptr as int]);
                }
                break;
            }
            self.entries.set(ptr as usize, ICacheEntry { accessed: false, ..e });
            ptr = Self::prev_ptr(ptr);
        }
        self.entries.set(ptr as usize, ICacheEntry { accessed: true, tag, insn: Some((ir, insn)) });
        self.ptr = ptr;
        proof {
            assert forall|ds: Seq<Decoder>| entries_decoded(first, ds) && decode_spec(ds, ir) == Ok::<Instruction, Exception>(insn)
                implies entries_decoded(self.entries@, ds) by {
                assert forall|j: int| 0 <= j < self.entries@.len() implies entry_decoded(#[trigger] self.entries@[j], ds) by {
                    if j != ptr as int {
                        assert(first[j].insn == self.entries@[j].insn);
                    }
                }
            }
        }
    }

    /// Empties every entry.
    pub fn invalid_all(&mut self)
        requires
            old(self).wf(),
        ensures
            final(self).wf(),
            final(self).ptr == old(self).ptr,
            forall|i: int| 0 <= i < 16 ==> (#[trigger] final(self).entries@[i]).insn is None,
    {
        let mut i: usize = 0;
        while i < BASKET_WAYS
            invariant
                self.wf(),
                self.ptr == old(self).ptr,
                i <= BASKET_WAYS,
                forall|j: int| 0 <= j < i ==> (#[trigger] self.entries@[j]).insn is None,
            decreases BASKET_WAYS - i,
        {
            let e = self.entries[i];
            self.entries.set(i, ICacheEntry { insn: None, ..e });
            i = i + 1;
        }
    }
}

pub struct ICache {
    pub size: usize,
    pub baskets: Vec<ICacheBasket>,
}

impl ICache {
    /// Entry `k` of basket `c`.
    pub open spec fn entry(&self, c: int, k: int) -> ICacheEntry {
        self.baskets@[c].entries@[k]
    }

    pub open spec fn wf(&self) -> bool {
        &&& self.size > 0
        &&& self.baskets@.len() == self.size
        &&& forall|b: int| 0 <= b < self.size ==> (#[trigger] self.baskets@[b]).wf()
    }

    /// Every valid entry of every basket holds the registry's decoding of its word.
    pub open spec fn decoded(&self, ds: Seq<Decoder>) -> bool {
        forall|b: int| 0 <= b < self.size ==> entries_decoded((#[trigger] self.baskets@[b]).entries@, ds)
    }

    /// The basket that serves physical address `addr`.
    pub open spec fn index(&self, addr: u64) -> int {
        ((addr >> 1u64) % (self.size as u64)) as int
    }

    /// Whether some valid entry holds `addr`.
    pub open spec fn holds(&self, addr: u64) -> bool {
        holds_tag(self.baskets@[self.index(addr)].entries@, addr >> 1u64)
    }

    /// A cache of `size` empty baskets.
    pub fn new(size: usize) -> (r: ICache)
        requires
            size > 0,
        ensures
            r.wf(),
            r.size == size,
            forall|ds: Seq<Decoder>| r.decoded(ds),
            forall|addr: u64| !r.holds(addr),
            forall|c: int, k: int| 0 <= c < r.size && 0 <= k < 16 ==> (#[trigger] r.entry(c, k)).insn is None,
    {
        let mut baskets: Vec<ICacheBasket> = Vec::new();
        let mut i: usize = 0;
        while i < size
            invariant
                i <= size,
                baskets@.len() == i,
                forall|b: int| 0 <= b < i ==> (#[trigger] baskets@[b]).wf() && basket_empty(baskets@[b]),
            decreases size - i,
        {
            baskets.push(ICacheBasket::new());
            i = i + 1;
        }
        let r = ICache { size, baskets };
        proof {
            assert forall|ds: Seq<Decoder>| r.decoded(ds) by {
                assert forall|b: int| 0 <= b < r.size implies entries_decoded((#[trigger] r.baskets@[b]).entries@, ds) by {
                    assert forall|k: int| 0 <= k < r.baskets@[b].entries@.len() implies entry_decoded(#[trigger] r.baskets@[b].entries@[k], ds) by {}
                }
            }
            assert forall|c: int, k: int| 0 <= c < r.size && 0 <= k < 16 implies (#[trigger] r.entry(c, k)).insn is None by {
                assert(basket_empty(r.baskets@[c]));
            }
            assert forall|addr: u64| !r.holds(addr) by {
                let b = r.index(addr);
                assert(0 <= b < r.size);
                if holds_tag(r.baskets@[b].entries@, addr >> 1u64) {
                    let k = choose|k: int| 0 <= k < r.baskets@[b].entries@.len() && (#[trigger] r.baskets@[b].entries@[k]).tag == addr >> 1u64
                        && r.baskets@[b].entries@[k].insn is Some;
                    assert(r.baskets@[b].entries@[k].insn is None);
                }
            }
        }
        r
    }

    fn basket_index(&self, addr: u64) -> (r: usize)
        requires
            self.wf(),
        ensures
            r == self.index(addr),
            r < self.size,
    {
        ((addr >> 1u64) % (self.size as u64)) as usize
    }

    /// Looks up the entry for physical address `addr` in its basket, in place.
    pub fn get_insn(&mut self, addr: u64) -> (r: Option<(u32, Instruction)>)
        requires
            old(self).wf(),
        ensures
            final(self).wf(),
            final(self).size == old(self).size,
            forall|ds: Seq<Decoder>| old(self).decoded(ds) ==> final(self).decoded(ds),
            looked_up(old(self).baskets@[old(self).index(addr)], final(self).baskets@[old(self).index(addr)], addr >> 1u64, r),
            forall|c: int| 0 <= c < old(self).size && c != old(self).index(addr) ==> #[trigger] final(self).baskets@[c]
                == old(self).baskets@[c],
            r is None <==> !old(self).holds(addr),
            forall|c: int, k: int| 0 <= c < old(self).size && 0 <= k < 16 ==> (#[trigger] final(self).entry(c, k)).tag
                == old(self).entry(c, k).tag && final(self).entry(c, k).insn == old(self).entry(c, k).insn,
    {
        let i = self.basket_index(addr);
        let mut b = ICacheBasket { ptr: 0, entries: Vec::new() };
        self.baskets.set_and_swap(i, &mut b);
        let r = b.get_insn(addr >> 1u64);
        self.baskets.set_and_swap(i, &mut b);
        proof {
            assert(self.baskets@ =~= old(self).baskets@.update(i as int, self.baskets@[i as int]));
            self.lemma_one_basket_changed(old(self), i as int);
            assert forall|ds: Seq<Decoder>| old(self).decoded(ds) implies self.decoded(ds) by {
                assert forall|c: int| 0 <= c < self.size implies entries_decoded((#[trigger] self.baskets@[c]).entries@, ds) by {
                    if c != i {
                        assert(self.baskets@[c] == old(self).baskets@[c]);
                    } else {
                        assert(entries_decoded(old(self).baskets@[c].entries@, ds));
                    }
                }
            }
        }
        r
    }

    /// `self` differs from `before` in basket `i` at most, and that basket is well formed.
    proof fn lemma_one_basket_changed(&self, before: &ICache, i: int)
        requires
            before.wf(),
            0 <= i < before.size,
            self.size == before.size,
            self.baskets@ == before.baskets@.update(i, self.baskets@[i]),
            self.baskets@[i].wf(),
        ensures
            self.wf(),
            forall|c: int| 0 <= c < before.size && c != i ==> #[trigger] self.baskets@[c] == before.baskets@[c],
    {
        assert forall|c: int| 0 <= c < self.size implies (#[trigger] self.baskets@[c]).wf() by {
            if c != i {
                assert(self.baskets@[c] == before.baskets@[c]);
            }
        }
    }

    /// Stores the decoded instruction `(ir, insn)` for physical address `addr`, in place.
    pub fn set_entry(&mut self, addr: u64, ir: u32, insn: Instruction)
        requires
            old(self).wf(),
        ensures
            final(self).wf(),
            final(self).size == old(self).size,
            forall|ds: Seq<Decoder>| old(self).decoded(ds) && decode_spec(ds, ir) == Ok::<Instruction, Exception>(insn)
                ==> final(self).decoded(ds),
            inserted(old(self).baskets@[old(self).index(addr)], final(self).baskets@[old(self).index(addr)], addr >> 1u64, ir, insn),
            forall|c: int| 0 <= c < old(self).size && c != old(self).index(addr) ==> #[trigger] final(self).baskets@[c]
                == old(self).baskets@[c],
            final(self).holds(addr),
            forall|c: int, k: int| 0 <= c < old(self).size && 0 <= k < 16 ==> ((#[trigger] final(self).entry(c, k)).tag
                == old(self).entry(c, k).tag && final(self).entry(c, k).insn == old(self).entry(c, k).insn) || (
                final(self).entry(c, k).tag == addr >> 1u64 && final(self).entry(c, k).insn == Some((ir, insn))),
    {
        let i = self.basket_index(addr);
        let mut b = ICacheBasket { ptr: 0, entries: Vec::new() };
        self.baskets.set_and_swap(i, &mut b);
        b.set_entry(addr >> 1u64, ir, insn);
        self.baskets.set_and_swap(i, &mut b);
        proof {
            assert(self.baskets@ =~= old(self).baskets@.update(i as int, self.baskets@[i as int]));
            self.lemma_one_basket_changed(old(self), i as int);
            assert forall|ds: Seq<Decoder>| old(self).decoded(ds) && decode_spec(ds, ir) == Ok::<Instruction, Exception>(insn)
                implies self.decoded(ds) by {
                assert forall|c: int| 0 <= c < self.size implies entries_decoded((#[trigger] self.baskets@[c]).entries@, ds) by {
                    if c != i {
                        assert(self.baskets@[c] == old(self).baskets@[c]);
                    } else {
                        assert(entries_decoded(old(self).baskets@[c].entries@, ds));
                    }
                }
            }
            let nb = self.baskets@[i as int];
            assert(nb.entries@[nb.ptr as int].tag == addr >> 1u64 && nb.entries@[nb.ptr as int].insn is Some);
        }
    }

    /// Empties the whole cache.
    pub fn invalid_all(&mut self)
        requires
            old(self).wf(),
        ensures
            final(self).wf(),
            final(self).size == old(self).size,
            forall|ds: Seq<Decoder>| final(self).decoded(ds),
            forall|addr: u64| !final(self).holds(addr),
            forall|c: int, k: int| 0 <= c < final(self).size && 0 <= k < 16 ==> (#[trigger] final(self).entry(c, k)).insn is None,
    {
        let mut i: usize = 0;
        while i < self.size
            invariant
                self.wf(),
                self.size == old(self).size,
                i <= self.size,
                forall|c: int| 0 <= c < i ==> basket_empty(#[trigger] self.baskets@[c]),
            decreases self.size - i,
        {
            let ghost before = self.baskets@;
            let mut b = ICacheBasket { ptr: 0, entries: Vec::new() };
            self.baskets.set_and_swap(i, &mut b);
            b.invalid_all();
            self.baskets.set_and_swap(i, &mut b);
            proof {
                assert forall|c: int| 0 <= c < self.size implies (#[trigger] self.baskets@[c]).wf() by {
                    if c != i {
                        assert(self.baskets@[c] == before[c]);
                    }
                }
                assert forall|c: int| 0 <= c < i + 1 implies basket_empty(#[trigger] self.baskets@[c]) by {
                    if c != i {
                        assert(self.baskets@[c] == before[c]);
                    }
                }
            }
            i = i + 1;
        }
        proof {
            assert forall|ds: Seq<Decoder>| self.decoded(ds) by {
                assert forall|c: int| 0 <= c < self.size implies entries_decoded((#[trigger] self.baskets@[c]).entries@, ds) by {
                    assert forall|k: int| 0 <= k < self.baskets@[c].entries@.len() implies entry_decoded(#[trigger] self.baskets@[c].entries@[k], ds) by {}
                }
            }
            assert forall|c: int, k: int| 0 <= c < self.size && 0 <= k < 16 implies (#[trigger] self.entry(c, k)).insn is None by {
                assert(basket_empty(self.baskets@[c]));
            }
            assert forall|addr: u64| !self.holds(addr) by {
                let c = self.index(addr);
                if holds_tag(self.baskets@[c].entries@, addr >> 1u64) {
                    let k = choose|k: int| 0 <= k < self.baskets@[c].entries@.len() && (#[trigger] self.baskets@[c].entries@[k]).tag == addr >> 1u64
                        && self.baskets@[c].entries@[k].insn is Some;
                    assert(self.baskets@[c].entries@[k].insn is None);
                }
            }
        }
    }
}

} // verus!
