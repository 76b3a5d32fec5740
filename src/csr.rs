//! The control/status register file: stored slots plus per-address read and write transforms.
use vstd::prelude::*;
use crate::bits::{field, with_field, bit_range, set_bit_range, low_mask, lemma_field_of_with_field};
use crate::config::{XLen, PrivilegeLevel};

verus! {

pub const SLOT_MSTATUS: usize = 0;
pub const SLOT_MISA: usize = 1;
pub const SLOT_MEDELEG: usize = 2;
pub const SLOT_MIDELEG: usize = 3;
pub const SLOT_MIE: usize = 4;
pub const SLOT_MTVEC: usize = 5;
pub const SLOT_MCOUNTEREN: usize = 6;
pub const SLOT_MSCRATCH: usize = 7;
pub const SLOT_MEPC: usize = 8;
pub const SLOT_MCAUSE: usize = 9;
pub const SLOT_MTVAL: usize = 10;
pub const SLOT_MIP: usize = 11;
pub const SLOT_MHARTID: usize = 12;
pub const SLOT_STVEC: usize = 13;
pub const SLOT_SCOUNTEREN: usize = 14;
pub const SLOT_SSCRATCH: usize = 15;
pub const SLOT_SEPC: usize = 16;
pub const SLOT_SCAUSE: usize = 17;
pub const SLOT_STVAL: usize = 18;
pub const SLOT_SATP: usize = 19;
pub const SLOT_TSELECT: usize = 20;
pub const SLOT_PMPCFG0: usize = 21;
pub const SLOT_PMPADDR0: usize = 25;
pub const NUM_SLOTS: usize = 41;

/// Bits of `mstatus` that exist on both widths (every field but `sd`).
pub const MSTATUS_FIELDS: u64 = 0x7f_f9bb;
/// The `uxl` and `sxl` fields of RV64.
pub const MSTATUS_FIELDS64: u64 = 0xf_0000_0000;
/// The bits of `mstatus` that `sstatus` shows.
pub const SSTATUS_FIELDS: u64 = 0xd_e122;
/// Interrupt bits that software may set in `mip`.
pub const MIP_WRITABLE: u64 = 0x222;
/// Interrupt bits that `mie` implements.
pub const MIE_WRITABLE: u64 = 0xaaa;

pub open spec fn xlen_mask(xlen: XLen) -> u64 {
    xlen.mask_spec()
}

/// Position of `mstatus.sd` for a register width.
pub open spec fn sd_bit(xlen: XLen) -> u64 {
    match xlen {
        XLen::X32 => 31,
        XLen::X64 => 63,
    }
}

/// The storage slot behind a CSR address, where there is one.
pub open spec fn slot_of(addr: u64, has_s: bool) -> Option<int> {
    if addr == 0x300 { Some(SLOT_MSTATUS as int) }
    else if addr == 0x301 { Some(SLOT_MISA as int) }
    else if addr == 0x302 { Some(SLOT_MEDELEG as int) }
    else if addr == 0x303 { Some(SLOT_MIDELEG as int) }
    else if addr == 0x304 { Some(SLOT_MIE as int) }
    else if addr == 0x305 { Some(SLOT_MTVEC as int) }
    else if addr == 0x306 { Some(SLOT_MCOUNTEREN as int) }
    else if addr == 0x340 { Some(SLOT_MSCRATCH as int) }
    else if addr == 0x341 { Some(SLOT_MEPC as int) }
    else if addr == 0x342 { Some(SLOT_MCAUSE as int) }
    else if addr == 0x343 { Some(SLOT_MTVAL as int) }
    else if addr == 0x344 { Some(SLOT_MIP as int) }
    else if addr == 0xf14 { Some(SLOT_MHARTID as int) }
    else if addr == 0x7a0 { Some(SLOT_TSELECT as int) }
    else if 0x3a0 <= addr < 0x3a4 { Some(SLOT_PMPCFG0 as int + (addr - 0x3a0)) }
    else if 0x3b0 <= addr < 0x3c0 { Some(SLOT_PMPADDR0 as int + (addr - 0x3b0)) }
    else if !has_s { None }
    else if addr == 0x100 { Some(SLOT_MSTATUS as int) }
    else if addr == 0x104 { Some(SLOT_MIE as int) }
    else if addr == 0x105 { Some(SLOT_STVEC as int) }
    else if addr == 0x106 { Some(SLOT_SCOUNTEREN as int) }
    else if addr == 0x140 { Some(SLOT_SSCRATCH as int) }
    else if addr == 0x141 { Some(SLOT_SEPC as int) }
    else if addr == 0x142 { Some(SLOT_SCAUSE as int) }
    else if addr == 0x143 { Some(SLOT_STVAL as int) }
    else if addr == 0x144 { Some(SLOT_MIP as int) }
    else if addr == 0x180 { Some(SLOT_SATP as int) }
    else { None }
}

/// Whether `addr` is a counter (`cycle`, `instret` and their machine and high-half forms).
pub open spec fn counter_value_spec(addr: u64, xlen: XLen, count: u64) -> Option<u64> {
    if addr == 0xc00 || addr == 0xc02 || addr == 0xb00 || addr == 0xb02 {
        Some(count & xlen_mask(xlen))
    } else if (addr == 0xc80 || addr == 0xc82 || addr == 0xb80 || addr == 0xb82) && xlen == XLen::X32 {
        Some(count >> 32)
    } else {
        None
    }
}

/// `mstatus` as read: the stored fields, with `sd` set exactly when `fs` or `xs` is dirty.
pub open spec fn mstatus_read_spec(stored: u64, xlen: XLen) -> u64 {
    let dirty = field(stored, 14, 13) == 3 || field(stored, 16, 15) == 3;
    if dirty {
        (stored & xlen_mask(xlen)) | (1u64 << sd_bit(xlen))
    } else {
        stored & xlen_mask(xlen)
    }
}

/// The fields of `mstatus` that a write may set on a register width.
pub open spec fn mstatus_fields(xlen: XLen) -> u64 {
    match xlen {
        XLen::X32 => MSTATUS_FIELDS,
        XLen::X64 => MSTATUS_FIELDS | MSTATUS_FIELDS64,
    }
}

/// The legal `mpp` for a written one under a privilege profile.
pub open spec fn legal_mpp(level: PrivilegeLevel, mpp: u64) -> u64 {
    match level {
        PrivilegeLevel::M => 3,
        PrivilegeLevel::MU => if mpp != 0 { 3 } else { 0 },
        PrivilegeLevel::MSU => if mpp == 2 { 0 } else { mpp },
    }
}

/// The write transform of `mstatus`: unknown bits and `sd` dropped, `mpp` clamped to the profile,
/// the supervisor fields cleared without S-mode, and `tw` cleared on an M-only hart.
pub open spec fn mstatus_write_spec(v: u64, xlen: XLen, level: PrivilegeLevel) -> u64 {
    let v1 = v & mstatus_fields(xlen);
    let v2 = with_field(v1, 12, 11, legal_mpp(level, field(v1, 12, 11)));
    let v3 = if level != PrivilegeLevel::MSU {
        with_field(with_field(with_field(v2, 8, 8, 0), 20, 20, 0), 22, 22, 0)
    } else {
        v2
    };
    if level == PrivilegeLevel::M {
        with_field(v3, 21, 21, 0)
    } else {
        v3
    }
}

/// The low bits of `misa`: one per extension letter that the hart implements.
pub open spec fn misa_value(xlen: XLen, ext_bits: u64) -> u64 {
    match xlen {
        XLen::X32 => (1u64 << 30u64) | (ext_bits & 0x3ff_ffff),
        XLen::X64 => (2u64 << 62u64) | (ext_bits & 0x3ff_ffff),
    }
}

/// The CSR file of one hart.
pub struct CsrFile {
    pub xlen: XLen,
    pub level: PrivilegeLevel,
    pub has_s: bool,
    pub regs: Vec<u64>,
}

impl CsrFile {
    pub open spec fn wf(&self) -> bool {
        self.regs@.len() == NUM_SLOTS
    }

    pub open spec fn reg(&self, slot: usize) -> u64 {
        self.regs@[slot as int]
    }

    /// The read transform of `addr`, applied to the value stored in its slot.
    pub open spec fn read_view(&self, addr: u64, stored: u64) -> u64 {
        if addr == 0x300 {
            mstatus_read_spec(stored, self.xlen)
        } else if addr == 0x100 {
            mstatus_read_spec(stored, self.xlen) & (SSTATUS_FIELDS | (1u64 << sd_bit(self.xlen)))
        } else if addr == 0x104 || addr == 0x144 {
            stored & self.regs@[SLOT_MIDELEG as int]
        } else {
            stored & xlen_mask(self.xlen)
        }
    }

    /// What a read of `addr` returns, with `count` retired instructions; `None` for an
    /// address that this file does not hold.
    pub open spec fn read_spec(&self, addr: u64, count: u64) -> Option<u64> {
        match counter_value_spec(addr, self.xlen, count) {
            Some(v) => Some(v),
            None => match slot_of(addr, self.has_s) {
                None => None,
                Some(slot) => Some(self.read_view(addr, self.regs@[slot])),
            },
        }
    }

    /// The value that a write of `v` to `addr` stores in the slot behind `addr`.
    pub open spec fn write_transform(&self, addr: u64, v: u64) -> u64 {
        let xm = xlen_mask(self.xlen);
        let slot = slot_of(addr, self.has_s).unwrap();
        let stored = self.regs@[slot];
        let mideleg = self.regs@[SLOT_MIDELEG as int];
        if addr == 0x300 {
            mstatus_write_spec(v, self.xlen, self.level)
        } else if addr == 0x100 {
            (stored & !SSTATUS_FIELDS) | (mstatus_write_spec(v, self.xlen, self.level) & SSTATUS_FIELDS)
        } else if addr == 0x304 {
            v & MIE_WRITABLE
        } else if addr == 0x344 {
            (stored & !MIP_WRITABLE) | (v & MIP_WRITABLE)
        } else if addr == 0x104 {
            (stored & !mideleg) | (v & mideleg & MIE_WRITABLE)
        } else if addr == 0x144 {
            (stored & !(mideleg & 0x2)) | (v & mideleg & 0x2)
        } else if addr == 0x305 || addr == 0x105 {
            if v & 3 >= 2 { v & xm & !3u64 } else { v & xm }
        } else if addr == 0x341 || addr == 0x141 {
            v & xm & !1u64
        } else if addr == 0x306 || addr == 0x106 {
            v & 0xffff_ffff
        } else if addr == 0x301 || addr == 0xf14 {
            stored
        } else if (addr == 0x302 || addr == 0x303) && !self.has_s {
            0
        } else {
            v & xm
        }
    }

    /// Whether a write to `addr` is accepted: the address is held, and is not a read-only counter.
    pub open spec fn writable(&self, addr: u64) -> bool {
        slot_of(addr, self.has_s).is_some() || ((addr == 0xb00 || addr == 0xb02 || ((addr == 0xb80
            || addr == 0xb82) && self.xlen == XLen::X32)))
    }

    /// The slots after a write that `writable` accepts.
    pub open spec fn write_spec(&self, addr: u64, v: u64) -> Seq<u64> {
        match slot_of(addr, self.has_s) {
            Some(slot) => self.regs@.update(slot, self.write_transform(addr, v)),
            None => self.regs@,
        }
    }
}

pub fn slot(addr: u64, has_s: bool) -> (r: Option<usize>)
    ensures
        r is None <==> slot_of(addr, has_s) is None,
        r matches Some(i) ==> i < NUM_SLOTS && slot_of(addr, has_s) == Some(i as int),
{
    if addr == 0x300 { Some(SLOT_MSTATUS) }
    else if addr == 0x301 { Some(SLOT_MISA) }
    else if addr == 0x302 { Some(SLOT_MEDELEG) }
    else if addr == 0x303 { Some(SLOT_MIDELEG) }
    else if addr == 0x304 { Some(SLOT_MIE) }
    else if addr == 0x305 { Some(SLOT_MTVEC) }
    else if addr == 0x306 { Some(SLOT_MCOUNTEREN) }
    else if addr == 0x340 { Some(SLOT_MSCRATCH) }
    else if addr == 0x341 { Some(SLOT_MEPC) }
    else if addr == 0x342 { Some(SLOT_MCAUSE) }
    else if addr == 0x343 { Some(SLOT_MTVAL) }
    else if addr == 0x344 { Some(SLOT_MIP) }
    else if addr == 0xf14 { Some(SLOT_MHARTID) }
    else if addr == 0x7a0 { Some(SLOT_TSELECT) }
    else if 0x3a0 <= addr && addr < 0x3a4 { Some(SLOT_PMPCFG0 + (addr - 0x3a0) as usize) }
    else if 0x3b0 <= addr && addr < 0x3c0 { Some(SLOT_PMPADDR0 + (addr - 0x3b0) as usize) }
    else if !has_s { None }
    else if addr == 0x100 { Some(SLOT_MSTATUS) }
    else if addr == 0x104 { Some(SLOT_MIE) }
    else if addr == 0x105 { Some(SLOT_STVEC) }
    else if addr == 0x106 { Some(SLOT_SCOUNTEREN) }
    else if addr == 0x140 { Some(SLOT_SSCRATCH) }
    else if addr == 0x141 { Some(SLOT_SEPC) }
    else if addr == 0x142 { Some(SLOT_SCAUSE) }
    else if addr == 0x143 { Some(SLOT_STVAL) }
    else if addr == 0x144 { Some(SLOT_MIP) }
    else if addr == 0x180 { Some(SLOT_SATP) }
    else { None }
}

fn counter_value(addr: u64, xlen: XLen, count: u64) -> (r: Option<u64>)
    ensures
        r == counter_value_spec(addr, xlen, count),
{
    if addr == 0xc00 || addr == 0xc02 || addr == 0xb00 || addr == 0xb02 {
        Some(count & xlen.mask())
    } else if (addr == 0xc80 || addr == 0xc82 || addr == 0xb80 || addr == 0xb82) && xlen == XLen::X32 {
        Some(count >> 32)
    } else {
        None
    }
}

fn sd_position(xlen: XLen) -> (r: u64)
    ensures
        r == sd_bit(xlen),
        r < 64,
{
    match xlen {
        XLen::X32 => 31,
        XLen::X64 => 63,
    }
}

pub fn mstatus_read(stored: u64, xlen: XLen) -> (r: u64)
    ensures
        r == mstatus_read_spec(stored, xlen),
{
    let dirty = bit_range(stored, 14, 13) == 3 || bit_range(stored, 16, 15) == 3;
    if dirty {
        (stored & xlen.mask()) | (1u64 << sd_position(xlen))
    } else {
        stored & xlen.mask()
    }
}

pub fn mstatus_write(v: u64, xlen: XLen, level: PrivilegeLevel) -> (r: u64)
    ensures
        r == mstatus_write_spec(v, xlen, level),
{
    let fields = match xlen {
        XLen::X32 => MSTATUS_FIELDS,
        XLen::X64 => MSTATUS_FIELDS | MSTATUS_FIELDS64,
    };
    let v1 = v & fields;
    let mpp = bit_range(v1, 12, 11);
    let legal = match level {
        PrivilegeLevel::M => 3,
        PrivilegeLevel::MU => if mpp != 0 { 3 } else { 0 },
        PrivilegeLevel::MSU => if mpp == 2 { 0 } else { mpp },
    };
    let v2 = set_bit_range(v1, 12, 11, legal);
    let v3 = if level != PrivilegeLevel::MSU {
        set_bit_range(set_bit_range(set_bit_range(v2, 8, 8, 0), 20, 20, 0), 22, 22, 0)
    } else {
        v2
    };
    if level == PrivilegeLevel::M {
        set_bit_range(v3, 21, 21, 0)
    } else {
        v3
    }
}

impl CsrFile {
    /// A CSR file in its reset state: every slot zero but `misa`, `mhartid`, `tselect`, and
    /// `mstatus.mpp`, which an M-only hart holds at M.
    pub fn new(xlen: XLen, level: PrivilegeLevel, has_s: bool, ext_bits: u64, hartid: u64) -> (r: CsrFile)
        ensures
            r.wf(),
            r.xlen == xlen,
            r.level == level,
            r.has_s == has_s,
            r.reg(SLOT_MISA) == misa_value(xlen, ext_bits),
            r.reg(SLOT_MHARTID) == hartid,
            r.reg(SLOT_TSELECT) == xlen.mask_spec(),
            r.reg(SLOT_MSTATUS) == (if level == PrivilegeLevel::M { with_field(0, 12, 11, 3) } else { 0 }),
            forall|i: int| 0 <= i < NUM_SLOTS && i != SLOT_MISA && i != SLOT_MHARTID && i != SLOT_TSELECT
                && i != SLOT_MSTATUS ==> r.regs@[i] == 0,
    {
        let mut regs: Vec<u64> = Vec::new();
        let mut i: usize = 0;
        while i < NUM_SLOTS
            invariant
                i <= NUM_SLOTS,
                regs@.len() == i,
                forall|j: int| 0 <= j < i ==> regs@[j] == 0,
            decreases NUM_SLOTS - i,
        {
            regs.push(0);
            i = i + 1;
        }
        let misa = match xlen {
            XLen::X32 => (1u64 << 30u64) | (ext_bits & 0x3ff_ffff),
            XLen::X64 => (2u64 << 62u64) | (ext_bits & 0x3ff_ffff),
        };
        regs.set(SLOT_MISA, misa);
        regs.set(SLOT_MHARTID, hartid);
        regs.set(SLOT_TSELECT, xlen.mask());
        if level == PrivilegeLevel::M {
            regs.set(SLOT_MSTATUS, set_bit_range(0, 12, 11, 3));
        }
        CsrFile { xlen, level, has_s, regs }
    }

    /// The raw content of a slot.
    pub fn get(&self, slot: usize) -> (r: u64)
        requires
            self.wf(),
            slot < NUM_SLOTS,
        ensures
            r == self.reg(slot),
    {
        self.regs[slot]
    }

    /// Stores a raw value, bypassing the write transforms: for the hart's own bookkeeping.
    pub fn set(&mut self, slot: usize, v: u64)
        requires
            old(self).wf(),
            slot < NUM_SLOTS,
        ensures
            final(self).wf(),
            final(self).xlen == old(self).xlen,
            final(self).level == old(self).level,
            final(self).has_s == old(self).has_s,
            final(self).regs@ == old(self).regs@.update(slot as int, v),
    {
        self.regs.set(slot, v);
    }

    /// Reads `addr` with all read transforms applied; `None` when this file does not hold it.
    pub fn read(&self, addr: u64, count: u64) -> (r: Option<u64>)
        requires
            self.wf(),
        ensures
            r == self.read_spec(addr, count),
    {
        match counter_value(addr, self.xlen, count) {
            Some(v) => Some(v),
            None => match slot(addr, self.has_s) {
                None => None,
                Some(s) => {
                    let stored = self.regs[s];
                    if addr == 0x300 {
                        Some(mstatus_read(stored, self.xlen))
                    } else if addr == 0x100 {
                        Some(mstatus_read(stored, self.xlen) & (SSTATUS_FIELDS | (1u64 << sd_position(self.xlen))))
                    } else if addr == 0x104 || addr == 0x144 {
                        Some(stored & self.regs[SLOT_MIDELEG])
                    } else {
                        Some(stored & self.xlen.mask())
                    }
                }
            }
        }
    }

    /// Whether a write to `addr` would be accepted.
    pub fn can_write(&self, addr: u64) -> (r: bool)
        ensures
            r == self.writable(addr),
    {
        slot(addr, self.has_s).is_some() || addr == 0xb00 || addr == 0xb02 || ((addr == 0xb80 || addr == 0xb82)
            && self.xlen == XLen::X32)
    }

    /// Writes `v` to `addr` through its write transform; `None`, with nothing changed, when the
    /// address is not writable here.
    pub fn write(&mut self, addr: u64, v: u64) -> (r: Option<()>)
        requires
            old(self).wf(),
        ensures
            final(self).wf(),
            final(self).xlen == old(self).xlen,
            final(self).level == old(self).level,
            final(self).has_s == old(self).has_s,
            r.is_some() == old(self).writable(addr),
            final(self).regs@ == (if r.is_some() { old(self).write_spec(addr, v) } else { old(self).regs@ }),
    {
        match slot(addr, self.has_s) {
            None => {
                if addr == 0xb00 || addr == 0xb02 || ((addr == 0xb80 || addr == 0xb82) && self.xlen == XLen::X32) {
                    Some(())
                } else {
                    None
                }
            }
            Some(s) => {
                let xm = self.xlen.mask();
                let stored = self.regs[s];
                let mideleg = self.regs[SLOT_MIDELEG];
                let nv = if addr == 0x300 {
                    mstatus_write(v, self.xlen, self.level)
                } else if addr == 0x100 {
                    (stored & !SSTATUS_FIELDS) | (mstatus_write(v, self.xlen, self.level) & SSTATUS_FIELDS)
                } else if addr == 0x304 {
                    v & MIE_WRITABLE
                } else if addr == 0x344 {
                    (stored & !MIP_WRITABLE) | (v & MIP_WRITABLE)
                } else if addr == 0x104 {
                    (stored & !mideleg) | (v & mideleg & MIE_WRITABLE)
                } else if addr == 0x144 {
                    (stored & !(mideleg & 0x2)) | (v & mideleg & 0x2)
                } else if addr == 0x305 || addr == 0x105 {
                    if v & 3 >= 2 { v & xm & !3u64 } else { v & xm }
                } else if addr == 0x341 || addr == 0x141 {
                    v & xm & !1u64
                } else if addr == 0x306 || addr == 0x106 {
                    v & 0xffff_ffff
                } else if addr == 0x301 || addr == 0xf14 {
                    stored
                } else if (addr == 0x302 || addr == 0x303) && !self.has_s {
                    0
                } else {
                    v & xm
                };
                self.regs.set(s, nv);
                Some(())
            }
        }
    }
}

/// Writing a CSR and reading it back gives the written value after the write transform, seen
/// through the read transform. `after` is the file as a write of `v` to `addr` leaves it.
pub proof fn lemma_write_then_read(before: &CsrFile, after: &CsrFile, addr: u64, v: u64, count: u64)
    requires
        before.wf(),
        slot_of(addr, before.has_s) is Some,
        after.xlen == before.xlen,
        after.level == before.level,
        after.has_s == before.has_s,
        after.regs@ == before.write_spec(addr, v),
    ensures
        after.read_spec(addr, count) == Some(before.read_view(addr, before.write_transform(addr, v))),
{
}

/// For a plain register (no transform on either side) reading back gives the written value cut
/// to the register width.
pub proof fn lemma_plain_write_then_read(before: &CsrFile, after: &CsrFile, addr: u64, v: u64, count: u64)
    requires
        before.wf(),
        addr == 0x340 || addr == 0x342 || addr == 0x343 || (before.has_s && (addr == 0x302 || addr == 0x303
            || addr == 0x140 || addr == 0x142 || addr == 0x143 || addr == 0x180)),
        after.xlen == before.xlen,
        after.level == before.level,
        after.has_s == before.has_s,
        after.regs@ == before.write_spec(addr, v),
    ensures
        after.read_spec(addr, count) == Some(v & xlen_mask(before.xlen)),
{
    lemma_write_then_read(before, after, addr, v, count);
    let xm = xlen_mask(before.xlen);
    assert((v & xm) & xm == v & xm) by (bit_vector);
}

/// The `mstatus` register as a value with named fields.
#[derive(Clone, Copy, Debug)]
pub struct MStatus {
    pub xlen: XLen,
    pub bits: u64,
}

impl MStatus {
    pub fn new(xlen: XLen) -> (r: MStatus)
        ensures
            r.xlen == xlen,
            r.bits == 0,
    {
        MStatus { xlen, bits: 0 }
    }

    pub fn get(&self) -> (r: u64)
        ensures
            r == self.bits,
    {
        self.bits
    }

    pub fn set(&mut self, v: u64)
        ensures
            final(self).xlen == old(self).xlen,
            final(self).bits == v,
    {
        self.bits = v;
    }

    pub fn uie(&self) -> (r: u64)
        ensures
            r == field(self.bits, 0, 0),
    {
        bit_range(self.bits, 0, 0)
    }

    pub fn set_uie(&mut self, v: u64)
        ensures
            final(self).xlen == old(self).xlen,
            final(self).bits == with_field(old(self).bits, 0, 0, v),
            field(final(self).bits, 0, 0) == v & low_mask(1),
    {
        self.bits = set_bit_range(self.bits, 0, 0, v);
        proof {
            lemma_field_of_with_field(old(self).bits, 0, 0, v);
        }
    }

    pub fn sie(&self) -> (r: u64)
        ensures
            r == field(self.bits, 1, 1),
    {
        bit_range(self.bits, 1, 1)
    }

    pub fn set_sie(&mut self, v: u64)
        ensures
            final(self).xlen == old(self).xlen,
            final(self).bits == with_field(old(self).bits, 1, 1, v),
            field(final(self).bits, 1, 1) == v & low_mask(1),
    {
        self.bits = set_bit_range(self.bits, 1, 1, v);
        proof {
            lemma_field_of_with_field(old(self).bits, 1, 1, v);
        }
    }

    pub fn mie(&self) -> (r: u64)
        ensures
            r == field(self.bits, 3, 3),
    {
        bit_range(self.bits, 3, 3)
    }

    pub fn set_mie(&mut self, v: u64)
        ensures
            final(self).xlen == old(self).xlen,
            final(self).bits == with_field(old(self).bits, 3, 3, v),
            field(final(self).bits, 3, 3) == v & low_mask(1),
    {
        self.bits = set_bit_range(self.bits, 3, 3, v);
        proof {
            lemma_field_of_with_field(old(self).bits, 3, 3, v);
        }
    }

    pub fn upie(&self) -> (r: u64)
        ensures
            r == field(self.bits, 4, 4),
    {
        bit_range(self.bits, 4, 4)
    }

    pub fn set_upie(&mut self, v: u64)
        ensures
            final(self).xlen == old(self).xlen,
            final(self).bits == with_field(old(self).bits, 4, 4, v),
            field(final(self).bits, 4, 4) == v & low_mask(1),
    {
        self.bits = set_bit_range(self.bits, 4, 4, v);
        proof {
            lemma_field_of_with_field(old(self).bits, 4, 4, v);
        }
    }

    pub fn spie(&self) -> (r: u64)
        ensures
            r == field(self.bits, 5, 5),
    {
        bit_range(self.bits, 5, 5)
    }

    pub fn set_spie(&mut self, v: u64)
        ensures
            final(self).xlen == old(self).xlen,
            final(self).bits == with_field(old(self).bits, 5, 5, v),
            field(final(self).bits, 5, 5) == v & low_mask(1),
    {
        self.bits = set_bit_range(self.bits, 5, 5, v);
        proof {
            lemma_field_of_with_field(old(self).bits, 5, 5, v);
        }
    }

    pub fn mpie(&self) -> (r: u64)
        ensures
            r == field(self.bits, 7, 7),
    {
        bit_range(self.bits, 7, 7)
    }

    pub fn set_mpie(&mut self, v: u64)
        ensures
            final(self).xlen == old(self).xlen,
            final(self).bits == with_field(old(self).bits, 7, 7, v),
            field(final(self).bits, 7, 7) == v & low_mask(1),
    {
        self.bits = set_bit_range(self.bits, 7, 7, v);
        proof {
            lemma_field_of_with_field(old(self).bits, 7, 7, v);
        }
    }

    pub fn spp(&self) -> (r: u64)
        ensures
            r == field(self.bits, 8, 8),
    {
        bit_range(self.bits, 8, 8)
    }

    pub fn set_spp(&mut self, v: u64)
        ensures
            final(self).xlen == old(self).xlen,
            final(self).bits == with_field(old(self).bits, 8, 8, v),
            field(final(self).bits, 8, 8) == v & low_mask(1),
    {
        self.bits = set_bit_range(self.bits, 8, 8, v);
        proof {
            lemma_field_of_with_field(old(self).bits, 8, 8, v);
        }
    }

    pub fn mpp(&self) -> (r: u64)
        ensures
            r == field(self.bits, 12, 11),
    {
        bit_range(self.bits, 12, 11)
    }

    pub fn set_mpp(&mut self, v: u64)
        ensures
            final(self).xlen == old(self).xlen,
            final(self).bits == with_field(old(self).bits, 12, 11, v),
            field(final(self).bits, 12, 11) == v & low_mask(2),
    {
        self.bits = set_bit_range(self.bits, 12, 11, v);
        proof {
            lemma_field_of_with_field(old(self).bits, 12, 11, v);
        }
    }

    pub fn fs(&self) -> (r: u64)
        ensures
            r == field(self.bits, 14, 13),
    {
        bit_range(self.bits, 14, 13)
    }

    pub fn set_fs(&mut self, v: u64)
        ensures
            final(self).xlen == old(self).xlen,
            final(self).bits == with_field(old(self).bits, 14, 13, v),
            field(final(self).bits, 14, 13) == v & low_mask(2),
    {
        self.bits = set_bit_range(self.bits, 14, 13, v);
        proof {
            lemma_field_of_with_field(old(self).bits, 14, 13, v);
        }
    }

    pub fn xs(&self) -> (r: u64)
        ensures
            r == field(self.bits, 16, 15),
    {
        bit_range(self.bits, 16, 15)
    }

    pub fn set_xs(&mut self, v: u64)
        ensures
            final(self).xlen == old(self).xlen,
            final(self).bits == with_field(old(self).bits, 16, 15, v),
            field(final(self).bits, 16, 15) == v & low_mask(2),
    {
        self.bits = set_bit_range(self.bits, 16, 15, v);
        proof {
            lemma_field_of_with_field(old(self).bits, 16, 15, v);
        }
    }

    pub fn mprv(&self) -> (r: u64)
        ensures
            r == field(self.bits, 17, 17),
    {
        bit_range(self.bits, 17, 17)
    }

    pub fn set_mprv(&mut self, v: u64)
        ensures
            final(self).xlen == old(self).xlen,
            final(self).bits == with_field(old(self).bits, 17, 17, v),
            field(final(self).bits, 17, 17) == v & low_mask(1),
    {
        self.bits = set_bit_range(self.bits, 17, 17, v);
        proof {
            lemma_field_of_with_field(old(self).bits, 17, 17, v);
        }
    }

    pub fn sum(&self) -> (r: u64)
        ensures
            r == field(self.bits, 18, 18),
    {
        bit_range(self.bits, 18, 18)
    }

    pub fn set_sum(&mut self, v: u64)
        ensures
            final(self).xlen == old(self).xlen,
            final(self).bits == with_field(old(self).bits, 18, 18, v),
            field(final(self).bits, 18, 18) == v & low_mask(1),
    {
        self.bits = set_bit_range(self.bits, 18, 18, v);
        proof {
            lemma_field_of_with_field(old(self).bits, 18, 18, v);
        }
    }

    pub fn mxr(&self) -> (r: u64)
        ensures
            r == field(self.bits, 19, 19),
    {
        bit_range(self.bits, 19, 19)
    }

    pub fn set_mxr(&mut self, v: u64)
        ensures
            final(self).xlen == old(self).xlen,
            final(self).bits == with_field(old(self).bits, 19, 19, v),
            field(final(self).bits, 19, 19) == v & low_mask(1),
    {
        self.bits = set_bit_range(self.bits, 19, 19, v);
        proof {
            lemma_field_of_with_field(old(self).bits, 19, 19, v);
        }
    }

    pub fn tvm(&self) -> (r: u64)
        ensures
            r == field(self.bits, 20, 20),
    {
        bit_range(self.bits, 20, 20)
    }

    pub fn set_tvm(&mut self, v: u64)
        ensures
            final(self).xlen == old(self).xlen,
            final(self).bits == with_field(old(self).bits, 20, 20, v),
            field(final(self).bits, 20, 20) == v & low_mask(1),
    {
        self.bits = set_bit_range(self.bits, 20, 20, v);
        proof {
            lemma_field_of_with_field(old(self).bits, 20, 20, v);
        }
    }

    pub fn tw(&self) -> (r: u64)
        ensures
            r == field(self.bits, 21, 21),
    {
        bit_range(self.bits, 21, 21)
    }

    pub fn set_tw(&mut self, v: u64)
        ensures
            final(self).xlen == old(self).xlen,
            final(self).bits == with_field(old(self).bits, 21, 21, v),
            field(final(self).bits, 21, 21) == v & low_mask(1),
    {
        self.bits = set_bit_range(self.bits, 21, 21, v);
        proof {
            lemma_field_of_with_field(old(self).bits, 21, 21, v);
        }
    }

    pub fn tsr(&self) -> (r: u64)
        ensures
            r == field(self.bits, 22, 22),
    {
        bit_range(self.bits, 22, 22)
    }

    pub fn set_tsr(&mut self, v: u64)
        ensures
            final(self).xlen == old(self).xlen,
            final(self).bits == with_field(old(self).bits, 22, 22, v),
            field(final(self).bits, 22, 22) == v & low_mask(1),
    {
        self.bits = set_bit_range(self.bits, 22, 22, v);
        proof {
            lemma_field_of_with_field(old(self).bits, 22, 22, v);
        }
    }

    /// The `sd` bit as stored: the top bit of the register.
    pub fn sd(&self) -> (r: u64)
        ensures
            r == field(self.bits, sd_bit(self.xlen), sd_bit(self.xlen)),
    {
        let p = sd_position(self.xlen);
        bit_range(self.bits, p, p)
    }
}

/// The address-matching mode of a PMP entry.
#[derive(Clone, Copy, Debug, PartialEq, Eq, Structural)]
pub enum PmpAType {
    OFF,
    TOR,
    NA4,
    NAPOT,
}

impl PmpAType {
    pub fn from_bits(v: u8) -> (r: Option<PmpAType>)
        ensures
            v == 0 <==> r == Some(PmpAType::OFF),
            v == 1 <==> r == Some(PmpAType::TOR),
            v == 2 <==> r == Some(PmpAType::NA4),
            v == 3 <==> r == Some(PmpAType::NAPOT),
            v > 3 <==> r is None,
    {
        if v == 0 {
            Some(PmpAType::OFF)
        } else if v == 1 {
            Some(PmpAType::TOR)
        } else if v == 2 {
            Some(PmpAType::NA4)
        } else if v == 3 {
            Some(PmpAType::NAPOT)
        } else {
            None
        }
    }
}

/// A `pmpcfg` register: one configuration byte per PMP entry.
#[derive(Clone, Copy, Debug)]
pub struct PmpCfg {
    pub bits: u64,
}

impl PmpCfg {
    /// The bits `[msb:lsb]` of the register, at most eight of them.
    pub fn bit_range(&self, msb: u64, lsb: u64) -> (r: u8)
        requires
            lsb <= msb < 64,
            msb - lsb < 8,
        ensures
            r as u64 == field(self.bits, msb, lsb),
    {
        let v = bit_range(self.bits, msb, lsb);
        proof {
            crate::bits::lemma_and_le(self.bits >> lsb, low_mask((msb - lsb + 1) as u64));
            let w = (msb - lsb + 1) as u64;
            assert(w <= 8 ==> ((1u64 << w) - 1) as u64 <= 255) by (bit_vector);
        }
        v as u8
    }

    /// Replaces the bits `[msb:lsb]` by the low bits of `value`.
    pub fn set_bit_range(&mut self, msb: u64, lsb: u64, value: u8)
        requires
            lsb <= msb < 64,
        ensures
            final(self).bits == with_field(old(self).bits, msb, lsb, value as u64),
    {
        self.bits = set_bit_range(self.bits, msb, lsb, value as u64);
    }
}

} // verus!
