//! The address space that harts share: memory regions at fixed bases, read and written
//! little-endian at widths of 1, 2, 4 and 8 bytes.
use vstd::prelude::*;

verus! {

#[derive(Clone, Copy, Debug, PartialEq, Eq, Structural)]
pub enum RegionError {
    /// The new region has no bytes, or ends past the top of the address space.
    Invalid,
    /// The new region overlaps the region with this index.
    Overlap(usize),
}

pub open spec fn overlaps(r: RegionInfo, base: u64, size: u64) -> bool {
    r.base < base + size && base < r.base + r.size
}

#[derive(Clone, Copy, Debug, PartialEq, Eq, Structural)]
pub enum BusError {
    /// No region holds the whole access.
    AccessErr,
    /// The address is not a multiple of the width.
    Misaligned,
}

/// A region: `size` bytes seen at `base`, kept from `start` on in the bus's byte store.
#[derive(Clone, Copy, Debug, PartialEq, Eq, Structural)]
pub struct RegionInfo {
    pub base: u64,
    pub size: u64,
    pub start: usize,
}

pub open spec fn holds(r: RegionInfo, addr: u64, width: u64) -> bool {
    r.base <= addr && addr + width <= r.base + r.size
}

/// The first region from `i` on that holds the access `[addr, addr + width)`.
pub open spec fn find_from(rs: Seq<RegionInfo>, addr: u64, width: u64, i: int) -> Option<int>
    decreases rs.len() - i,
{
    if i < 0 || i >= rs.len() {
        None
    } else if holds(rs[i], addr, width) {
        Some(i)
    } else {
        find_from(rs, addr, width, i + 1)
    }
}

pub proof fn lemma_find_from(rs: Seq<RegionInfo>, addr: u64, width: u64, i: int)
    requires
        0 <= i,
    ensures
        find_from(rs, addr, width, i) matches Some(j) ==> i <= j < rs.len() && holds(rs[j], addr, width),
    decreases rs.len() - i,
{
    if i < rs.len() && !holds(rs[i], addr, width) {
        lemma_find_from(rs, addr, width, i + 1);
    }
}

pub open spec fn valid_width(width: u64) -> bool {
    width == 1 || width == 2 || width == 4 || width == 8
}

pub open spec fn width_mask(width: u64) -> u64 {
    if width == 1 {
        0xff
    } else if width == 2 {
        0xffff
    } else if width == 4 {
        0xffff_ffff
    } else {
        0xffff_ffff_ffff_ffff
    }
}

/// The little-endian value of `width` bytes of `d` from `o` on.
pub open spec fn le_value(d: Seq<u8>, o: int, width: u64) -> u64 {
    if width == 1 {
        d[o] as u64
    } else if width == 2 {
        d[o] as u64 | (d[o + 1] as u64) << 8u64
    } else if width == 4 {
        d[o] as u64 | (d[o + 1] as u64) << 8u64 | (d[o + 2] as u64) << 16u64 | (d[o + 3] as u64) << 24u64
    } else {
        d[o] as u64 | (d[o + 1] as u64) << 8u64 | (d[o + 2] as u64) << 16u64 | (d[o + 3] as u64) << 24u64
            | (d[o + 4] as u64) << 32u64 | (d[o + 5] as u64) << 40u64 | (d[o + 6] as u64) << 48u64 | (d[o
            + 7] as u64) << 56u64
    }
}

/// `d` with the low `width` bytes of `v` written little-endian from `o` on.
pub open spec fn le_store(d: Seq<u8>, o: int, v: u64, width: u64) -> Seq<u8>
    decreases width,
{
    if width == 0 {
        d
    } else {
        le_store(d.update(o + width - 1, #[verifier::truncate] ((v >> (8 * (width - 1)) as u64) as u8)), o, v, (width - 1) as u64)
    }
}

pub struct Bus {
    pub regions: Vec<RegionInfo>,
    pub data: Vec<u8>,
}

impl Bus {
    pub open spec fn wf(&self) -> bool {
        forall|i: int|
            0 <= i < self.regions@.len() ==> {
                let r = #[trigger] self.regions@[i];
                &&& r.start + r.size <= self.data@.len()
                &&& r.base + r.size <= 0x1_0000_0000_0000_0000
            }
    }

    /// The region that serves an access, if any.
    pub open spec fn region_of(&self, addr: u64, width: u64) -> Option<int> {
        find_from(self.regions@, addr, width, 0)
    }

    /// The index in the byte store of the byte at `addr` in region `i`.
    pub open spec fn offset(&self, i: int, addr: u64) -> int {
        self.regions@[i].start + (addr - self.regions@[i].base)
    }

    /// What a read of `width` bytes at `addr` returns.
    pub open spec fn read_spec(&self, addr: u64, width: u64) -> Result<u64, BusError> {
        if addr % width != 0 {
            Err(BusError::Misaligned)
        } else {
            match self.region_of(addr, width) {
                None => Err(BusError::AccessErr),
                Some(i) => Ok(le_value(self.data@, self.offset(i, addr), width)),
            }
        }
    }

    /// Whether a write of `width` bytes at `addr` succeeds, and if so the byte store after it.
    pub open spec fn write_spec(&self, addr: u64, v: u64, width: u64) -> Result<Seq<u8>, BusError> {
        if addr % width != 0 {
            Err(BusError::Misaligned)
        } else {
            match self.region_of(addr, width) {
                None => Err(BusError::AccessErr),
                Some(i) => Ok(le_store(self.data@, self.offset(i, addr), v, width)),
            }
        }
    }

    pub fn new() -> (r: Bus)
        ensures
            r.wf(),
            r.regions@.len() == 0,
            r.data@.len() == 0,
    {
        Bus { regions: Vec::new(), data: Vec::new() }
    }

    /// Finds the region that serves an access.
    pub fn find(&self, addr: u64, width: u64) -> (r: Option<usize>)
        requires
            self.wf(),
            1 <= width <= 8,
        ensures
            r is None <==> self.region_of(addr, width) is None,
            r matches Some(i) ==> self.region_of(addr, width) == Some(i as int) && i < self.regions@.len(),
    {
        let mut i: usize = 0;
        while i < self.regions.len()
            invariant
                self.wf(),
                i <= self.regions@.len(),
                find_from(self.regions@, addr, width, 0) == find_from(self.regions@, addr, width, i as int),
            decreases self.regions@.len() - i,
        {
            let r = self.regions[i];
            if r.base <= addr && (addr as u128) + (width as u128) <= (r.base as u128) + (r.size as u128) {
                return Some(i);
            }
            i = i + 1;
        }
        None
    }

    fn read_le(&self, o: usize, width: u64) -> (r: u64)
        requires
            valid_width(width),
            o + width <= self.data@.len(),
        ensures
            r == le_value(self.data@, o as int, width),
    {
        let d = &self.data;
        let _n = d.len();
        if width == 1 {
            d[o] as u64
        } else if width == 2 {
            d[o] as u64 | (d[o + 1] as u64) << 8u64
        } else if width == 4 {
            d[o] as u64 | (d[o + 1] as u64) << 8u64 | (d[o + 2] as u64) << 16u64 | (d[o + 3] as u64) << 24u64
        } else {
            d[o] as u64 | (d[o + 1] as u64) << 8u64 | (d[o + 2] as u64) << 16u64 | (d[o + 3] as u64) << 24u64
                | (d[o + 4] as u64) << 32u64 | (d[o + 5] as u64) << 40u64 | (d[o + 6] as u64) << 48u64 | (d[o
                + 7] as u64) << 56u64
        }
    }

    fn write_le(&mut self, o: usize, v: u64, width: u64)
        requires
            valid_width(width),
            o + width <= old(self).data@.len(),
        ensures
            final(self).regions@ == old(self).regions@,
            final(self).data@ == le_store(old(self).data@, o as int, v, width),
    {
        let _n = self.data.len();
        let mut k: u64 = width;
        while k > 0
            invariant
                k <= width,
                valid_width(width),
                o + width <= self.data@.len(),
                self.data@.len() == old(self).data@.len(),
                _n == self.data@.len(),
                self.regions@ == old(self).regions@,
                le_store(old(self).data@, o as int, v, width) == le_store(self.data@, o as int, v, k),
            decreases k,
        {
            let b = (v >> (8 * (k - 1))) as u8;
            self.data.set(o + (k - 1) as usize, b);
            k = k - 1;
        }
    }

    /// Reads `width` bytes at `addr`, little-endian.
    pub fn read(&self, addr: u64, width: u64) -> (r: Result<u64, BusError>)
        requires
            self.wf(),
            valid_width(width),
        ensures
            r == self.read_spec(addr, width),
    {
        if addr % width != 0 {
            return Err(BusError::Misaligned);
        }
        match self.find(addr, width) {
            None => Err(BusError::AccessErr),
            Some(i) => {
                let r = self.regions[i];
                let _n = self.data.len();
                proof {
                    lemma_find_from(self.regions@, addr, width, 0);
                    assert(r == self.regions@[i as int]);
                    assert(r.start + r.size <= self.data@.len());
                }
                let o = r.start + (addr - r.base) as usize;
                Ok(self.read_le(o, width))
            }
        }
    }

    /// Writes the low `width` bytes of `v` at `addr`, little-endian.
    pub fn write(&mut self, addr: u64, v: u64, width: u64) -> (r: Result<(), BusError>)
        requires
            old(self).wf(),
            valid_width(width),
        ensures
            final(self).wf(),
            final(self).regions@ == old(self).regions@,
            match old(self).write_spec(addr, v, width) {
                Ok(d) => r is Ok && final(self).data@ == d,
                Err(e) => r == Err::<(), BusError>(e) && final(self).data@ == old(self).data@,
            },
    {
        if addr % width != 0 {
            return Err(BusError::Misaligned);
        }
        match self.find(addr, width) {
            None => Err(BusError::AccessErr),
            Some(i) => {
                let r = self.regions[i];
                let _n = self.data.len();
                proof {
                    lemma_find_from(self.regions@, addr, width, 0);
                    assert(r == self.regions@[i as int]);
                    assert(r.start + r.size <= self.data@.len());
                }
                let o = r.start + (addr - r.base) as usize;
                self.write_le(o, v, width);
                proof {
                    lemma_le_store_len(old(self).data@, o as int, v, width);
                }
                Ok(())
            }
        }
    }
}

impl Bus {
    /// The first region that overlaps `[base, base + size)`.
    pub fn first_overlap(&self, base: u64, size: u64) -> (r: Option<usize>)
        requires
            base + size <= 0x1_0000_0000_0000_0000,
        ensures
            match r {
                Some(i) => i < self.regions@.len() && overlaps(self.regions@[i as int], base, size)
                    && forall|j: int| 0 <= j < i ==> !overlaps(#[trigger] self.regions@[j], base, size),
                None => forall|j: int| 0 <= j < self.regions@.len() ==> !overlaps(#[trigger] self.regions@[j], base, size),
            },
    {
        let mut i: usize = 0;
        while i < self.regions.len()
            invariant
                i <= self.regions@.len(),
                base + size <= 0x1_0000_0000_0000_0000,
                forall|j: int| 0 <= j < i ==> !overlaps(#[trigger] self.regions@[j], base, size),
            decreases self.regions@.len() - i,
        {
            let r = self.regions[i];
            if (r.base as u128) < (base as u128) + (size as u128) && (base as u128) < (r.base as u128) + (r.size as u128) {
                return Some(i);
            }
            i = i + 1;
        }
        None
    }

    /// Adds a zero-filled region of `size` bytes at `base`. It fails when the region is empty or
    /// passes the top of the address space, or overlaps a region already there.
    pub fn add_region(&mut self, base: u64, size: u64) -> (r: Result<usize, RegionError>)
        requires
            old(self).wf(),
        ensures
            final(self).wf(),
            match r {
                Ok(i) => {
                    &&& size > 0
                    &&& base + size <= 0x1_0000_0000_0000_0000
                    &&& forall|j: int| 0 <= j < old(self).regions@.len() ==> !overlaps(#[trigger] old(self).regions@[j], base, size)
                    &&& i == old(self).regions@.len()
                    &&& final(self).regions@ == old(self).regions@.push(RegionInfo { base, size, start: old(self).data@.len() as usize })
                    &&& final(self).data@.len() == old(self).data@.len() + size
                    &&& final(self).data@.subrange(0, old(self).data@.len() as int) == old(self).data@
                },
                Err(RegionError::Invalid) => {
                    &&& (size == 0 || base + size > 0x1_0000_0000_0000_0000 || old(self).data@.len() + size > usize::MAX)
                    &&& *final(self) == *old(self)
                },
                Err(RegionError::Overlap(j)) => {
                    &&& j < old(self).regions@.len()
                    &&& overlaps(old(self).regions@[j as int], base, size)
                    &&& *final(self) == *old(self)
                },
            },
    {
        if size == 0 || (base as u128) + (size as u128) > 0x1_0000_0000_0000_0000u128 {
            return Err(RegionError::Invalid);
        }
        let n = self.data.len();
        if (n as u128) + (size as u128) > usize::MAX as u128 {
            return Err(RegionError::Invalid);
        }
        match self.first_overlap(base, size) {
            Some(j) => Err(RegionError::Overlap(j)),
            None => {
                let i = self.regions.len();
                self.data.resize(n + size as usize, 0u8);
                self.regions.push(RegionInfo { base, size, start: n });
                proof {
                    assert forall|k: int| 0 <= k < self.regions@.len() implies {
                        let r = #[trigger] self.regions@[k];
                        &&& r.start + r.size <= self.data@.len()
                        &&& r.base + r.size <= 0x1_0000_0000_0000_0000
                    } by {
                        if k < i {
                            assert(self.regions@[k] == old(self).regions@[k]);
                        }
                    }
                }
                Ok(i)
            }
        }
    }

    /// Reads one byte at `addr`.
    pub fn read_u8(&self, addr: u64) -> (r: Result<u8, BusError>)
        requires
            self.wf(),
        ensures
            match self.read_spec(addr, 1) {
                Ok(v) => r == Ok::<u8, BusError>(v as u8),
                Err(e) => r == Err::<u8, BusError>(e),
            },
    {
        match self.read(addr, 1) {
            Ok(v) => Ok(v as u8),
            Err(e) => Err(e),
        }
    }

    /// Reads a little-endian half word at `addr`.
    pub fn read_u16(&self, addr: u64) -> (r: Result<u16, BusError>)
        requires
            self.wf(),
        ensures
            match self.read_spec(addr, 2) {
                Ok(v) => r == Ok::<u16, BusError>(v as u16),
                Err(e) => r == Err::<u16, BusError>(e),
            },
    {
        match self.read(addr, 2) {
            Ok(v) => Ok(v as u16),
            Err(e) => Err(e),
        }
    }

    /// Reads a little-endian word at `addr`.
    pub fn read_u32(&self, addr: u64) -> (r: Result<u32, BusError>)
        requires
            self.wf(),
        ensures
            match self.read_spec(addr, 4) {
                Ok(v) => r == Ok::<u32, BusError>(v as u32),
                Err(e) => r == Err::<u32, BusError>(e),
            },
    {
        match self.read(addr, 4) {
            Ok(v) => Ok(v as u32),
            Err(e) => Err(e),
        }
    }

    /// Reads a little-endian double word at `addr`.
    pub fn read_u64(&self, addr: u64) -> (r: Result<u64, BusError>)
        requires
            self.wf(),
        ensures
            r == self.read_spec(addr, 8),
    {
        self.read(addr, 8)
    }

    /// Atomically replaces the word at `addr` by `f` of it, and returns the word it held.
    pub fn amo_u32<F: Fn(u32) -> u32>(&mut self, addr: u64, f: F) -> (r: Result<u32, BusError>)
        requires
            old(self).wf(),
            forall|x: u32| f.requires((x,)),
        ensures
            final(self).wf(),
            final(self).regions@ == old(self).regions@,
            match old(self).read_spec(addr, 4) {
                Ok(v) => r == Ok::<u32, BusError>(v as u32) && exists|n: u32| #[trigger] f.ensures((v as u32,), n)
                    && old(self).write_spec(addr, n as u64, 4) == Ok::<Seq<u8>, BusError>(final(self).data@),
                Err(e) => r == Err::<u32, BusError>(e) && final(self).data@ == old(self).data@,
            },
    {
        match self.read(addr, 4) {
            Err(e) => Err(e),
            Ok(v) => {
                let n = f(v as u32);
                let _ = self.write(addr, n as u64, 4);
                Ok(v as u32)
            }
        }
    }

    /// Atomically replaces the double word at `addr` by `f` of it, and returns the one it held.
    pub fn amo_u64<F: Fn(u64) -> u64>(&mut self, addr: u64, f: F) -> (r: Result<u64, BusError>)
        requires
            old(self).wf(),
            forall|x: u64| f.requires((x,)),
        ensures
            final(self).wf(),
            final(self).regions@ == old(self).regions@,
            match old(self).read_spec(addr, 8) {
                Ok(v) => r == Ok::<u64, BusError>(v) && exists|n: u64| #[trigger] f.ensures((v,), n)
                    && old(self).write_spec(addr, n, 8) == Ok::<Seq<u8>, BusError>(final(self).data@),
                Err(e) => r == Err::<u64, BusError>(e) && final(self).data@ == old(self).data@,
            },
    {
        match self.read(addr, 8) {
            Err(e) => Err(e),
            Ok(v) => {
                let n = f(v);
                let _ = self.write(addr, n, 8);
                Ok(v)
            }
        }
    }
}

/// A value read from `width` bytes fits in them.
pub proof fn lemma_le_value_bound(d: Seq<u8>, o: int, width: u64)
    requires
        valid_width(width),
    ensures
        le_value(d, o, width) <= width_mask(width),
{
    let (b0, b1, b2, b3) = (d[o], d[o + 1], d[o + 2], d[o + 3]);
    if width == 1 {
        assert((b0 as u64) <= 0xff) by (bit_vector);
    } else if width == 2 {
        assert((b0 as u64 | (b1 as u64) << 8u64) <= 0xffff) by (bit_vector);
    } else if width == 4 {
        assert((b0 as u64 | (b1 as u64) << 8u64 | (b2 as u64) << 16u64 | (b3 as u64) << 24u64) <= 0xffff_ffff) by (bit_vector);
    }
}

/// Little-endian bytes written and read back at the same place give the value cut to the width.
pub proof fn lemma_le_round_trip(d: Seq<u8>, o: int, v: u64, width: u64)
    requires
        valid_width(width),
        0 <= o,
        o + width <= d.len(),
    ensures
        le_value(le_store(d, o, v, width), o, width) == v & width_mask(width),
{
    reveal_with_fuel(le_store, 9);
    let d2 = le_store(d, o, v, width);
    assert(v >> 0u64 == v) by (bit_vector);
    if width == 1 {
        assert(d2[o] == #[verifier::truncate] (v as u8));
        assert((v as u8) as u64 == v & 0xff) by (bit_vector);
    } else if width == 2 {
        assert(d2[o] == #[verifier::truncate] (v as u8));
        assert(d2[o + 1] == #[verifier::truncate] ((v >> 8u64) as u8));
        assert(((v as u8) as u64 | (((v >> 8u64) as u8) as u64) << 8u64) == v & 0xffff) by (bit_vector);
    } else if width == 4 {
        assert(d2[o] == #[verifier::truncate] (v as u8));
        assert(d2[o + 1] == #[verifier::truncate] ((v >> 8u64) as u8));
        assert(d2[o + 2] == #[verifier::truncate] ((v >> 16u64) as u8));
        assert(d2[o + 3] == #[verifier::truncate] ((v >> 24u64) as u8));
        assert(((v as u8) as u64 | (((v >> 8u64) as u8) as u64) << 8u64 | (((v >> 16u64) as u8) as u64) << 16u64
            | (((v >> 24u64) as u8) as u64) << 24u64) == v & 0xffff_ffff) by (bit_vector);
    } else {
        assert(d2[o] == #[verifier::truncate] (v as u8));
        assert(d2[o + 1] == #[verifier::truncate] ((v >> 8u64) as u8));
        assert(d2[o + 2] == #[verifier::truncate] ((v >> 16u64) as u8));
        assert(d2[o + 3] == #[verifier::truncate] ((v >> 24u64) as u8));
        assert(d2[o + 4] == #[verifier::truncate] ((v >> 32u64) as u8));
        assert(d2[o + 5] == #[verifier::truncate] ((v >> 40u64) as u8));
        assert(d2[o + 6] == #[verifier::truncate] ((v >> 48u64) as u8));
        assert(d2[o + 7] == #[verifier::truncate] ((v >> 56u64) as u8));
        assert(((v as u8) as u64 | (((v >> 8u64) as u8) as u64) << 8u64 | (((v >> 16u64) as u8) as u64) << 16u64
            | (((v >> 24u64) as u8) as u64) << 24u64 | (((v >> 32u64) as u8) as u64) << 32u64 | (((v
            >> 40u64) as u8) as u64) << 40u64 | (((v >> 48u64) as u8) as u64) << 48u64 | (((v >> 56u64) as u8)
            as u64) << 56u64) == v) by (bit_vector);
        assert(v & 0xffff_ffff_ffff_ffffu64 == v) by (bit_vector);
    }
}

/// A store followed by a load of the same width at the same address returns the stored value
/// cut to the width. `after` is the bus as the store leaves it.
pub proof fn lemma_store_then_load(before: &Bus, after: &Bus, addr: u64, v: u64, width: u64)
    requires
        before.wf(),
        valid_width(width),
        before.write_spec(addr, v, width) is Ok,
        after.regions@ == before.regions@,
        after.data@ == before.write_spec(addr, v, width)->Ok_0,
    ensures
        after.read_spec(addr, width) == Ok::<u64, BusError>(v & width_mask(width)),
{
    let i = before.region_of(addr, width)->Some_0;
    lemma_find_from(before.regions@, addr, width, 0);
    assert(before.regions@[i].start + before.regions@[i].size <= before.data@.len());
    lemma_le_round_trip(before.data@, before.offset(i, addr), v, width);
}

pub proof fn lemma_le_store_len(d: Seq<u8>, o: int, v: u64, width: u64)
    requires
        0 <= o,
        o + width <= d.len(),
    ensures
        le_store(d, o, v, width).len() == d.len(),
    decreases width,
{
    if width > 0 {
        lemma_le_store_len(d.update(o + width - 1, #[verifier::truncate] ((v >> (8 * (width - 1)) as u64) as u8)), o, v, (width - 1) as u64);
    }
}

} // verus!
