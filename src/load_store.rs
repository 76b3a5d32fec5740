//! Width-typed loads, stores and atomics of a hart: translate, access the bus, and turn bus
//! errors into the architectural exceptions.
use vstd::prelude::*;
use crate::bus::{Bus, BusError, valid_width, width_mask, lemma_store_then_load};
use crate::csr::{SLOT_SATP, SLOT_MSTATUS};
use crate::mmu::{MmuOpt, translate, translate_spec};
use crate::state::ProcessorState;
use crate::trap::Exception;

verus! {

/// Translating `va` for an access of kind `opt` in the hart's current state.
pub open spec fn data_translate(s: &ProcessorState, bus: &Bus, va: u64, opt: MmuOpt) -> Result<u64, Exception> {
    translate_spec(bus, s.config.xlen, s.csrs.reg(SLOT_SATP), s.csrs.reg(SLOT_MSTATUS), s.privilege, va, opt)
}

pub open spec fn load_error(e: BusError, va: u64) -> Exception {
    match e {
        BusError::AccessErr => Exception::LoadAccess(va),
        BusError::Misaligned => Exception::LoadMisaligned(va),
    }
}

pub open spec fn store_error(e: BusError, va: u64) -> Exception {
    match e {
        BusError::AccessErr => Exception::StoreAccess(va),
        BusError::Misaligned => Exception::StoreMisaligned(va),
    }
}

/// What a load of `width` bytes at virtual address `va` returns.
pub open spec fn load_spec(s: &ProcessorState, bus: &Bus, va: u64, width: u64) -> Result<u64, Exception> {
    match data_translate(s, bus, va, MmuOpt::Load) {
        Err(e) => Err(e),
        Ok(pa) => match bus.read_spec(pa, width) {
            Ok(v) => Ok(v),
            Err(e) => Err(load_error(e, va)),
        },
    }
}

/// What a store of the low `width` bytes of `v` at `va` does: the bus bytes after it, or the
/// exception it raises.
pub open spec fn store_spec(s: &ProcessorState, bus: &Bus, va: u64, v: u64, width: u64) -> Result<Seq<u8>, Exception> {
    match data_translate(s, bus, va, MmuOpt::Store) {
        Err(e) => Err(e),
        Ok(pa) => match bus.write_spec(pa, v, width) {
            Ok(d) => Ok(d),
            Err(e) => Err(store_error(e, va)),
        },
    }
}

pub struct LoadStore {}

impl LoadStore {
    pub fn new() -> (r: LoadStore) {
        LoadStore {}
    }

    fn translate_data(s: &ProcessorState, bus: &Bus, va: u64, opt: MmuOpt) -> (r: Result<u64, Exception>)
        requires
            s.wf(),
            bus.wf(),
        ensures
            r == data_translate(s, bus, va, opt),
    {
        translate(bus, s.config.xlen, s.csrs.get(SLOT_SATP), s.csrs.get(SLOT_MSTATUS), s.privilege, va, opt)
    }

    /// Loads `width` bytes at `va`.
    pub fn load(&self, s: &ProcessorState, bus: &Bus, va: u64, width: u64) -> (r: Result<u64, Exception>)
        requires
            s.wf(),
            bus.wf(),
            valid_width(width),
        ensures
            r == load_spec(s, bus, va, width),
    {
        let pa = Self::translate_data(s, bus, va, MmuOpt::Load)?;
        match bus.read(pa, width) {
            Ok(v) => Ok(v),
            Err(BusError::AccessErr) => Err(Exception::LoadAccess(va)),
            Err(BusError::Misaligned) => Err(Exception::LoadMisaligned(va)),
        }
    }

    /// Stores the low `width` bytes of `v` at `va`; on an exception the bus is left as it was.
    pub fn store(&self, s: &ProcessorState, bus: &mut Bus, va: u64, v: u64, width: u64) -> (r: Result<(), Exception>)
        requires
            s.wf(),
            old(bus).wf(),
            valid_width(width),
        ensures
            final(bus).wf(),
            final(bus).regions@ == old(bus).regions@,
            match store_spec(s, old(bus), va, v, width) {
                Ok(d) => r is Ok && final(bus).data@ == d,
                Err(e) => r == Err::<(), Exception>(e) && final(bus).data@ == old(bus).data@,
            },
    {
        let pa = Self::translate_data(s, bus, va, MmuOpt::Store)?;
        match bus.write(pa, v, width) {
            Ok(()) => Ok(()),
            Err(BusError::AccessErr) => Err(Exception::StoreAccess(va)),
            Err(BusError::Misaligned) => Err(Exception::StoreMisaligned(va)),
        }
    }

    pub fn load_byte(&self, s: &ProcessorState, bus: &Bus, va: u64) -> (r: Result<u64, Exception>)
        requires
            s.wf(),
            bus.wf(),
        ensures
            r == load_spec(s, bus, va, 1),
    {
        self.load(s, bus, va, 1)
    }

    pub fn load_half_word(&self, s: &ProcessorState, bus: &Bus, va: u64) -> (r: Result<u64, Exception>)
        requires
            s.wf(),
            bus.wf(),
        ensures
            r == load_spec(s, bus, va, 2),
    {
        self.load(s, bus, va, 2)
    }

    pub fn load_word(&self, s: &ProcessorState, bus: &Bus, va: u64) -> (r: Result<u64, Exception>)
        requires
            s.wf(),
            bus.wf(),
        ensures
            r == load_spec(s, bus, va, 4),
    {
        self.load(s, bus, va, 4)
    }

    pub fn load_double_word(&self, s: &ProcessorState, bus: &Bus, va: u64) -> (r: Result<u64, Exception>)
        requires
            s.wf(),
            bus.wf(),
        ensures
            r == load_spec(s, bus, va, 8),
    {
        self.load(s, bus, va, 8)
    }

    pub fn store_byte(&self, s: &ProcessorState, bus: &mut Bus, va: u64, v: u64) -> (r: Result<(), Exception>)
        requires
            s.wf(),
            old(bus).wf(),
        ensures
            final(bus).wf(),
            final(bus).regions@ == old(bus).regions@,
            match store_spec(s, old(bus), va, v, 1) {
                Ok(d) => r is Ok && final(bus).data@ == d,
                Err(e) => r == Err::<(), Exception>(e) && final(bus).data@ == old(bus).data@,
            },
    {
        self.store(s, bus, va, v, 1)
    }

    pub fn store_half_word(&self, s: &ProcessorState, bus: &mut Bus, va: u64, v: u64) -> (r: Result<(), Exception>)
        requires
            s.wf(),
            old(bus).wf(),
        ensures
            final(bus).wf(),
            final(bus).regions@ == old(bus).regions@,
            match store_spec(s, old(bus), va, v, 2) {
                Ok(d) => r is Ok && final(bus).data@ == d,
                Err(e) => r == Err::<(), Exception>(e) && final(bus).data@ == old(bus).data@,
            },
    {
        self.store(s, bus, va, v, 2)
    }

    pub fn store_word(&self, s: &ProcessorState, bus: &mut Bus, va: u64, v: u64) -> (r: Result<(), Exception>)
        requires
            s.wf(),
            old(bus).wf(),
        ensures
            final(bus).wf(),
            final(bus).regions@ == old(bus).regions@,
            match store_spec(s, old(bus), va, v, 4) {
                Ok(d) => r is Ok && final(bus).data@ == d,
                Err(e) => r == Err::<(), Exception>(e) && final(bus).data@ == old(bus).data@,
            },
    {
        self.store(s, bus, va, v, 4)
    }

    pub fn store_double_word(&self, s: &ProcessorState, bus: &mut Bus, va: u64, v: u64) -> (r: Result<(), Exception>)
        requires
            s.wf(),
            old(bus).wf(),
        ensures
            final(bus).wf(),
            final(bus).regions@ == old(bus).regions@,
            match store_spec(s, old(bus), va, v, 8) {
                Ok(d) => r is Ok && final(bus).data@ == d,
                Err(e) => r == Err::<(), Exception>(e) && final(bus).data@ == old(bus).data@,
            },
    {
        self.store(s, bus, va, v, 8)
    }

    /// Atomically applies `f` to the word at `va` and returns the word it held; translated as a store.
    pub fn amo_word<F: Fn(u32) -> u32>(&self, s: &ProcessorState, bus: &mut Bus, va: u64, f: F) -> (r: Result<u64, Exception>)
        requires
            s.wf(),
            old(bus).wf(),
            forall|x: u32| f.requires((x,)),
        ensures
            final(bus).wf(),
            final(bus).regions@ == old(bus).regions@,
            match data_translate(s, old(bus), va, MmuOpt::Store) {
                Err(e) => r == Err::<u64, Exception>(e) && final(bus).data@ == old(bus).data@,
                Ok(pa) => match old(bus).read_spec(pa, 4) {
                    Err(e) => r == Err::<u64, Exception>(store_error(e, va)) && final(bus).data@ == old(bus).data@,
                    Ok(v) => r == Ok::<u64, Exception>(v as u32 as u64) && exists|n: u32| #[trigger] f.ensures((v as u32,), n)
                        && old(bus).write_spec(pa, n as u64, 4) == Ok::<Seq<u8>, BusError>(final(bus).data@),
                },
            },
    {
        let pa = Self::translate_data(s, bus, va, MmuOpt::Store)?;
        match bus.amo_u32(pa, f) {
            Ok(v) => Ok(v as u64),
            Err(BusError::AccessErr) => Err(Exception::StoreAccess(va)),
            Err(BusError::Misaligned) => Err(Exception::StoreMisaligned(va)),
        }
    }

    /// Atomically applies `f` to the double word at `va` and returns the one it held.
    pub fn amo_double_word<F: Fn(u64) -> u64>(&self, s: &ProcessorState, bus: &mut Bus, va: u64, f: F) -> (r: Result<u64, Exception>)
        requires
            s.wf(),
            old(bus).wf(),
            forall|x: u64| f.requires((x,)),
        ensures
            final(bus).wf(),
            final(bus).regions@ == old(bus).regions@,
            match data_translate(s, old(bus), va, MmuOpt::Store) {
                Err(e) => r == Err::<u64, Exception>(e) && final(bus).data@ == old(bus).data@,
                Ok(pa) => match old(bus).read_spec(pa, 8) {
                    Err(e) => r == Err::<u64, Exception>(store_error(e, va)) && final(bus).data@ == old(bus).data@,
                    Ok(v) => r == Ok::<u64, Exception>(v) && exists|n: u64| #[trigger] f.ensures((v,), n)
                        && old(bus).write_spec(pa, n, 8) == Ok::<Seq<u8>, BusError>(final(bus).data@),
                },
            },
    {
        let pa = Self::translate_data(s, bus, va, MmuOpt::Store)?;
        match bus.amo_u64(pa, f) {
            Ok(v) => Ok(v),
            Err(BusError::AccessErr) => Err(Exception::StoreAccess(va)),
            Err(BusError::Misaligned) => Err(Exception::StoreMisaligned(va)),
        }
    }
}

/// A store of width `w` at `va` followed by a load of the same width there returns the stored
/// value cut to the width, when the load translates `va` to the address the store wrote.
/// `after` is the bus as the store leaves it.
pub proof fn lemma_store_then_load_word(s: &ProcessorState, before: &Bus, after: &Bus, va: u64, v: u64, width: u64)
    requires
        s.wf(),
        before.wf(),
        valid_width(width),
        store_spec(s, before, va, v, width) is Ok,
        after.regions@ == before.regions@,
        after.data@ == store_spec(s, before, va, v, width)->Ok_0,
        data_translate(s, after, va, MmuOpt::Load) == data_translate(s, before, va, MmuOpt::Store),
    ensures
        load_spec(s, after, va, width) == Ok::<u64, Exception>(v & width_mask(width)),
{
    let pa = data_translate(s, before, va, MmuOpt::Store)->Ok_0;
    lemma_store_then_load(before, after, pa, v, width);
}

} // verus!
