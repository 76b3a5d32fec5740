//! Instruction fetch: translate the program counter, read one or two half words, decode, and
//! keep the decoded instruction in the cache under its physical address.
use vstd::prelude::*;
use crate::bus::Bus;
use crate::csr::{SLOT_SATP, SLOT_MSTATUS};
use crate::decode::{Decoder, InsnMap, Instruction, decode_spec};
use crate::icache::{ICache, ICacheEntry};
use crate::mmu::{MmuOpt, translate, translate_spec, lemma_translate_next_half, lemma_translate_offset};
use crate::state::ProcessorState;
use crate::trap::Exception;

verus! {

/// The number of baskets of a fetcher's cache.
pub const ICACHE_SIZE: usize = 1024;

/// Translating `va` for a fetch in the hart's current state.
pub open spec fn fetch_translate(s: &ProcessorState, bus: &Bus, va: u64) -> Result<u64, Exception> {
    translate_spec(bus, s.config.xlen, s.csrs.reg(SLOT_SATP), s.csrs.reg(SLOT_MSTATUS), s.privilege, va, MmuOpt::Fetch)
}

/// The fetch of the instruction at `pc` with no help from the cache: at a half-word boundary two
/// bytes are read, and two more at `pc + 2` (translated on their own) when they start a 32-bit
/// instruction; at a word boundary four bytes are read, of which a compressed instruction uses two.
pub open spec fn cold_fetch(s: &ProcessorState, bus: &Bus, ds: Seq<Decoder>, pc: u64) -> Result<Instruction, Exception> {
    match fetch_translate(s, bus, pc) {
        Err(e) => Err(e),
        Ok(pa) => if pc % 4 == 2 {
            match bus.read_spec(pa, 2) {
                Err(_) => Err(Exception::FetchAccess(pc)),
                Ok(low) => if low & 3 != 3 {
                    decode_spec(ds, low as u32)
                } else {
                    match fetch_translate(s, bus, vstd::wrapping::u64_specs::wrapping_add(pc, 2)) {
                        Err(e) => Err(e),
                        Ok(pa2) => match bus.read_spec(pa2, 2) {
                            Err(_) => Err(Exception::FetchAccess(pc)),
                            Ok(high) => decode_spec(ds, (low | (high << 16u64)) as u32),
                        },
                    }
                },
            }
        } else {
            match bus.read_spec(pa, 4) {
                Err(_) => Err(Exception::FetchAccess(pc)),
                Ok(data) => if data & 3 != 3 {
                    decode_spec(ds, (data & 0xffff) as u32)
                } else {
                    decode_spec(ds, data as u32)
                },
            }
        },
    }
}

/// The instruction word that memory holds at physical address `pa`, read as a fetch reads it:
/// two bytes at a half-word boundary (and the two after them for a 32-bit instruction), four
/// at a word boundary.
pub open spec fn insn_word(bus: &Bus, pa: u64) -> Result<u32, ()> {
    if pa % 4 == 2 {
        match bus.read_spec(pa, 2) {
            Err(_) => Err(()),
            Ok(low) => if low & 3 != 3 {
                Ok(low as u32)
            } else {
                match bus.read_spec((pa + 2) as u64, 2) {
                    Err(_) => Err(()),
                    Ok(high) => Ok((low | (high << 16u64)) as u32),
                }
            },
        }
    } else {
        match bus.read_spec(pa, 4) {
            Err(_) => Err(()),
            Ok(data) => if data & 3 != 3 { Ok((data & 0xffff) as u32) } else { Ok(data as u32) },
        }
    }
}

/// A valid entry holds the word that memory now has at the entry's address.
pub open spec fn entry_coherent(e: ICacheEntry, bus: &Bus) -> bool {
    match e.insn {
        None => true,
        Some(x) => insn_word(bus, e.tag << 1u64) == Ok::<u32, ()>(x.0),
    }
}

/// Every valid entry of the cache holds the word that memory now has at its address.
pub open spec fn coherent(c: &ICache, bus: &Bus) -> bool {
    forall|b: int, k: int| 0 <= b < c.size && 0 <= k < 16 ==> entry_coherent(#[trigger] c.entry(b, k), bus)
}

/// A cache whose entries kept their tags and words stays coherent.
proof fn lemma_unchanged_coherent(a: &ICache, b: &ICache, bus: &Bus)
    requires
        coherent(a, bus),
        b.size == a.size,
        forall|c: int, k: int| 0 <= c < a.size && 0 <= k < 16 ==> (#[trigger] b.entry(c, k)).tag == a.entry(c, k).tag
            && b.entry(c, k).insn == a.entry(c, k).insn,
    ensures
        coherent(b, bus),
{
    assert forall|c: int, k: int| 0 <= c < b.size && 0 <= k < 16 implies entry_coherent(#[trigger] b.entry(c, k), bus) by {
        assert(entry_coherent(a.entry(c, k), bus));
    }
}

/// Storing the word that memory holds at `pa` keeps a coherent cache coherent.
proof fn lemma_insert_coherent(a: &ICache, b: &ICache, bus: &Bus, pa: u64, ir: u32, insn: Instruction)
    requires
        coherent(a, bus),
        b.size == a.size,
        pa % 2 == 0,
        insn_word(bus, pa) == Ok::<u32, ()>(ir),
        forall|c: int, k: int| 0 <= c < a.size && 0 <= k < 16 ==> ((#[trigger] b.entry(c, k)).tag == a.entry(c, k).tag
            && b.entry(c, k).insn == a.entry(c, k).insn) || (b.entry(c, k).tag == pa >> 1u64 && b.entry(c, k).insn
            == Some((ir, insn))),
    ensures
        coherent(b, bus),
{
    assert(((pa >> 1u64) << 1u64) == pa) by (bit_vector)
        requires
            pa % 2 == 0,
    ;
    assert forall|c: int, k: int| 0 <= c < b.size && 0 <= k < 16 implies entry_coherent(#[trigger] b.entry(c, k), bus) by {
        assert(entry_coherent(a.entry(c, k), bus));
    }
}

/// For a `pc` on a half-word boundary whose instruction does not run past its page, the cold
/// fetch decodes the word that memory holds at the translated address.
pub proof fn lemma_cold_fetch_reads_word(s: &ProcessorState, bus: &Bus, ds: Seq<Decoder>, pc: u64)
    requires
        pc % 2 == 0,
        pc % 4096 != 4094,
    ensures
        fetch_translate(s, bus, pc) matches Ok(pa) ==> pa % 2 == 0 && cold_fetch(s, bus, ds, pc) == match insn_word(bus, pa) {
            Ok(w) => decode_spec(ds, w),
            Err(_) => Err(Exception::FetchAccess(pc)),
        },
{
    let (xlen, satp, ms, p) = (s.config.xlen, s.csrs.reg(SLOT_SATP), s.csrs.reg(SLOT_MSTATUS), s.privilege);
    lemma_translate_offset(bus, xlen, satp, ms, p, pc, MmuOpt::Fetch);
    if pc % 4 == 2 {
        lemma_translate_next_half(bus, xlen, satp, ms, p, pc, MmuOpt::Fetch);
        assert(vstd::wrapping::u64_specs::wrapping_add(pc, 2) == (pc + 2) as u64);
    }
}

/// What a fetch of `pc` may return, with the cache `c` before it: a translation error as it is;
/// the cold fetch when `c` holds nothing for the physical address, or agrees with memory (for a
/// `pc` on a half-word boundary whose instruction stays in its page); and in every case an
/// instruction that is the registry's decoding of its own word.
pub open spec fn fetch_outcome(c: &ICache, s: &ProcessorState, bus: &Bus, ds: Seq<Decoder>, pc: u64, r: Result<Instruction, Exception>) -> bool {
    &&& match fetch_translate(s, bus, pc) {
        Err(e) => r == Err::<Instruction, Exception>(e),
        Ok(pa) => !c.holds(pa) ==> r == cold_fetch(s, bus, ds, pc),
    }
    &&& (coherent(c, bus) && pc % 2 == 0 && pc % 4096 != 4094 ==> r == cold_fetch(s, bus, ds, pc))
    &&& (r matches Ok(insn) ==> decode_spec(ds, insn.ir) == Ok::<Instruction, Exception>(insn))
}

pub struct Fetcher {
    pub icache: ICache,
}

impl Fetcher {
    pub open spec fn wf(&self) -> bool {
        self.icache.wf()
    }

    pub fn new() -> (r: Fetcher)
        ensures
            r.wf(),
            forall|ds: Seq<Decoder>| r.icache.decoded(ds),
            forall|a: u64| !r.icache.holds(a),
            forall|b: Bus| coherent(&r.icache, &b),
    {
        Fetcher { icache: ICache::new(ICACHE_SIZE) }
    }

    pub fn flush_icache(&mut self)
        requires
            old(self).wf(),
        ensures
            final(self).wf(),
            forall|ds: Seq<Decoder>| final(self).icache.decoded(ds),
            forall|a: u64| !final(self).icache.holds(a),
            forall|b: Bus| coherent(&final(self).icache, &b),
    {
        self.icache.invalid_all();
    }

    fn fetch_u16_slow(bus: &Bus, addr: u64, pc: u64) -> (r: Result<u64, Exception>)
        requires
            bus.wf(),
        ensures
            match bus.read_spec(addr, 2) {
                Ok(v) => r == Ok::<u64, Exception>(v),
                Err(_) => r == Err::<u64, Exception>(Exception::FetchAccess(pc)),
            },
    {
        match bus.read(addr, 2) {
            Ok(v) => Ok(v),
            Err(_) => Err(Exception::FetchAccess(pc)),
        }
    }

    fn fetch_u32_slow(bus: &Bus, addr: u64, pc: u64) -> (r: Result<u64, Exception>)
        requires
            bus.wf(),
        ensures
            match bus.read_spec(addr, 4) {
                Ok(v) => r == Ok::<u64, Exception>(v),
                Err(_) => r == Err::<u64, Exception>(Exception::FetchAccess(pc)),
            },
    {
        match bus.read(addr, 4) {
            Ok(v) => Ok(v),
            Err(_) => Err(Exception::FetchAccess(pc)),
        }
    }

    fn translate_pc(s: &ProcessorState, bus: &Bus, va: u64) -> (r: Result<u64, Exception>)
        requires
            s.wf(),
            bus.wf(),
        ensures
            r == fetch_translate(s, bus, va),
    {
        translate(bus, s.config.xlen, s.csrs.get(SLOT_SATP), s.csrs.get(SLOT_MSTATUS), s.privilege, va, MmuOpt::Fetch)
    }

    /// Fetches the instruction at `pc` and records its word as the hart's current instruction.
    /// What comes back is always the registry's decoding of its word; when the cache holds nothing
    /// for the physical address (after `flush_icache`, say) it is exactly the cold fetch.
    pub fn fetch(&mut self, s: &mut ProcessorState, bus: &Bus, decoder: &InsnMap, pc: u64) -> (r: Result<Instruction, Exception>)
        requires
            old(self).wf(),
            old(s).wf(),
            bus.wf(),
            old(self).icache.decoded(decoder.decoders@),
        ensures
            final(self).wf(),
            final(self).icache.decoded(decoder.decoders@),
            final(s).wf(),
            fetch_outcome(&old(self).icache, old(s), bus, decoder.decoders@, pc, r),
            r matches Ok(insn) ==> *final(s) == (ProcessorState { ir: insn.ir, ..*old(s) }),
            r is Err ==> *final(s) == *old(s),
            final(self).icache.size == old(self).icache.size,
            r is Err ==> forall|c: int, k: int| 0 <= c < old(self).icache.size && 0 <= k < 16 ==> (#[trigger] final(
                self).icache.entry(c, k)).tag == old(self).icache.entry(c, k).tag && final(self).icache.entry(c, k).insn
                == old(self).icache.entry(c, k).insn,
            fetch_translate(old(s), bus, pc) matches Ok(pa) ==> (r is Ok ==> final(self).icache.holds(pa)),
            coherent(&old(self).icache, bus) && pc % 2 == 0 && pc % 4096 != 4094 ==> coherent(&final(self).icache, bus),
    {
        let ghost ds = decoder.decoders@;
        let pa = Self::translate_pc(s, bus, pc)?;
        if let Some((ir, insn)) = self.icache.get_insn(pa) {
            proof {
                let b = old(self).icache.index(pa);
                let ob = old(self).icache.baskets@[b];
                assert(ob.wf());
                crate::icache::lemma_first_hit(ob.entries@, ob.ptr as int, 16, pa >> 1u64);
                let k = crate::icache::first_hit(ob.entries@, ob.ptr as int, 16, pa >> 1u64)->Some_0;
                assert(ob.entries@[k].insn == Some((ir, insn)) && ob.entries@[k].tag == pa >> 1u64);
                assert(0 <= b < old(self).icache.size);
                assert(crate::icache::entries_decoded(old(self).icache.baskets@[b].entries@, ds));
                assert(crate::icache::entry_decoded(old(self).icache.baskets@[b].entries@[k], ds));
                if coherent(&old(self).icache, bus) && pc % 2 == 0 && pc % 4096 != 4094 {
                    lemma_cold_fetch_reads_word(old(s), bus, ds, pc);
                    assert(old(self).icache.entry(b, k).insn == Some((ir, insn)));
                    assert(((pa >> 1u64) << 1u64) == pa) by (bit_vector)
                        requires
                            pa % 2 == 0,
                    ;
                    assert(insn_word(bus, pa) == Ok::<u32, ()>(ir));
                }
            }
            s.ir = ir;
            return Ok(insn);
        }
        let ghost c0 = self.icache;
        proof {
            if coherent(&old(self).icache, bus) {
                lemma_unchanged_coherent(&old(self).icache, &self.icache, bus);
            }
            if pc % 2 == 0 && pc % 4096 != 4094 {
                lemma_cold_fetch_reads_word(old(s), bus, ds, pc);
            }
        }
        if pc % 4 == 2 {
            let low = Self::fetch_u16_slow(bus, pa, pc)?;
            if low & 3 != 3 {
                let data = low as u32;
                let insn = decoder.decode(data)?;
                self.icache.set_entry(pa, data, insn);
                proof {
                    if coherent(&c0, bus) && pc % 2 == 0 && pc % 4096 != 4094 {
                        lemma_insert_coherent(&c0, &self.icache, bus, pa, data, insn);
                    }
                }
                s.ir = data;
                Ok(insn)
            } else {
                let pa_high = Self::translate_pc(s, bus, pc.wrapping_add(2))?;
                let high = Self::fetch_u16_slow(bus, pa_high, pc)?;
                let data = (low | (high << 16u64)) as u32;
                let insn = decoder.decode(data)?;
                self.icache.set_entry(pa, data, insn);
                proof {
                    if coherent(&c0, bus) && pc % 2 == 0 && pc % 4096 != 4094 {
                        lemma_translate_next_half(bus, old(s).config.xlen, old(s).csrs.reg(SLOT_SATP), old(s).csrs.reg(SLOT_MSTATUS),
                            old(s).privilege, pc, MmuOpt::Fetch);
                        lemma_insert_coherent(&c0, &self.icache, bus, pa, data, insn);
                    }
                }
                s.ir = data;
                Ok(insn)
            }
        } else {
            let word = Self::fetch_u32_slow(bus, pa, pc)?;
            let data = if word & 3 != 3 {
                (word & 0xffff) as u32
            } else {
                word as u32
            };
            let insn = decoder.decode(data)?;
            self.icache.set_entry(pa, data, insn);
            proof {
                if coherent(&c0, bus) && pc % 2 == 0 && pc % 4096 != 4094 {
                    lemma_insert_coherent(&c0, &self.icache, bus, pa, data, insn);
                }
            }
            s.ir = data;
            Ok(insn)
        }
    }
}

} // verus!
