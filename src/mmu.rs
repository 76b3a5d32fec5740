//! Virtual-to-physical translation: the identity in M-mode or under a bare `satp`, else an Sv32
//! (RV32) or Sv39 (RV64) page-table walk over the bus.
use vstd::prelude::*;
use crate::bits::{field, bit_range, low_mask, mask_bits, lemma_and_le};
use crate::bus::{Bus, BusError};
use crate::config::{XLen, Privilege};
use crate::trap::Exception;
use crate::csr::{SLOT_SATP, SLOT_MSTATUS};
use crate::state::ProcessorState;

verus! {

#[derive(Clone, Copy, Debug, PartialEq, Eq, Structural)]
pub enum MmuOpt {
    Fetch,
    Load,
    Store,
}

/// The parameters of a page-table format.
#[derive(Clone, Copy, Debug, PartialEq, Eq, Structural)]
pub struct PagingMode {
    /// Number of levels of the walk.
    pub levels: u64,
    /// Bytes per page-table entry.
    pub pte_size: u64,
    /// Bits of the virtual page number per level.
    pub vpn_bits: u64,
    /// The highest bit of the PPN in a page-table entry.
    pub pte_ppn_msb: u64,
    /// The highest bit of the root PPN in `satp`.
    pub satp_ppn_msb: u64,
}

pub open spec fn sv32() -> PagingMode {
    PagingMode { levels: 2, pte_size: 4, vpn_bits: 10, pte_ppn_msb: 31, satp_ppn_msb: 21 }
}

pub open spec fn sv39() -> PagingMode {
    PagingMode { levels: 3, pte_size: 8, vpn_bits: 9, pte_ppn_msb: 53, satp_ppn_msb: 43 }
}

/// The paging mode that `satp` selects; `None` for bare.
pub open spec fn paging_mode_spec(xlen: XLen, satp: u64) -> Option<PagingMode> {
    match xlen {
        XLen::X32 => if field(satp, 31, 31) == 1 { Some(sv32()) } else { None },
        XLen::X64 => if field(satp, 63, 60) == 8 { Some(sv39()) } else { None },
    }
}

/// The privilege that an access is checked against: `mstatus.mpp` for loads and stores under
/// `mstatus.mprv`, else the current one.
pub open spec fn effective_privilege(mstatus: u64, p: Privilege, opt: MmuOpt) -> Privilege {
    if opt != MmuOpt::Fetch && field(mstatus, 17, 17) == 1 {
        match Privilege::from_value_spec(field(mstatus, 12, 11)) {
            Some(q) => q,
            None => p,
        }
    } else {
        p
    }
}

pub open spec fn page_fault(opt: MmuOpt, va: u64) -> Exception {
    match opt {
        MmuOpt::Fetch => Exception::FetchPageFault(va),
        MmuOpt::Load => Exception::LoadPageFault(va),
        MmuOpt::Store => Exception::StorePageFault(va),
    }
}

pub open spec fn access_fault(opt: MmuOpt, va: u64) -> Exception {
    match opt {
        MmuOpt::Fetch => Exception::FetchAccess(va),
        MmuOpt::Load => Exception::LoadAccess(va),
        MmuOpt::Store => Exception::StoreAccess(va),
    }
}

/// The virtual page number of level `i`.
pub open spec fn vpn(m: PagingMode, va: u64, i: u64) -> u64 {
    field(va, (12 + m.vpn_bits * i + m.vpn_bits - 1) as u64, (12 + m.vpn_bits * i) as u64)
}

/// Whether a leaf entry grants the access: `r`, `w`, `x`, `u` bits and `sum`, `mxr`.
pub open spec fn leaf_allows(pte: u64, opt: MmuOpt, p: Privilege, mstatus: u64) -> bool {
    let r = field(pte, 1, 1) == 1;
    let w = field(pte, 2, 2) == 1;
    let x = field(pte, 3, 3) == 1;
    let u = field(pte, 4, 4) == 1;
    let a = field(pte, 6, 6) == 1;
    let d = field(pte, 7, 7) == 1;
    let sum = field(mstatus, 18, 18) == 1;
    let mxr = field(mstatus, 19, 19) == 1;
    let kind_ok = match opt {
        MmuOpt::Fetch => x,
        MmuOpt::Load => r || (x && mxr),
        MmuOpt::Store => w && d,
    };
    let user_ok = match p {
        Privilege::U => u,
        Privilege::S => !u || (sum && opt != MmuOpt::Fetch),
        Privilege::M => true,
    };
    kind_ok && user_ok && a
}

/// The low bits of a page of level `i`: the page offset and the lower virtual page numbers.
pub open spec fn page_low_bits(m: PagingMode, i: u64) -> u64 {
    (12 + m.vpn_bits * i) as u64
}

/// The physical address that a leaf at level `i` maps `va` to.
pub open spec fn leaf_address(m: PagingMode, pte: u64, va: u64, i: u64) -> u64 {
    let ppn = field(pte, m.pte_ppn_msb, 10);
    let low = page_low_bits(m, i);
    (((ppn << 12u64) >> low) << low) | (va & low_mask(low))
}

/// The walk from the table at `table` with level `i` next, as the Privileged ISA gives it
/// (no hardware update of the accessed and dirty bits: a clear one faults).
pub open spec fn walk(bus: &Bus, m: PagingMode, table: u64, va: u64, i: u64, opt: MmuOpt, p: Privilege, mstatus: u64) -> Result<u64, Exception>
    decreases i,
{
    let addr = table | (vpn(m, va, i) * m.pte_size) as u64;
    match bus.read_spec(addr, m.pte_size) {
        Err(_) => Err(access_fault(opt, va)),
        Ok(pte) => {
            let v = field(pte, 0, 0) == 1;
            let r = field(pte, 1, 1) == 1;
            let w = field(pte, 2, 2) == 1;
            let x = field(pte, 3, 3) == 1;
            if !v || (!r && w) {
                Err(page_fault(opt, va))
            } else if r || x {
                if !leaf_allows(pte, opt, p, mstatus) {
                    Err(page_fault(opt, va))
                } else if i > 0 && field(pte, (10 + m.vpn_bits * i - 1) as u64, 10) != 0 {
                    Err(page_fault(opt, va))
                } else {
                    Ok(leaf_address(m, pte, va, i))
                }
            } else if i == 0 {
                Err(page_fault(opt, va))
            } else {
                walk(bus, m, field(pte, m.pte_ppn_msb, 10) << 12u64, va, (i - 1) as u64, opt, p, mstatus)
            }
        }
    }
}

/// Whether `va` is a canonical address of the mode: on Sv39, bits 63..39 copy bit 38.
pub open spec fn canonical(xlen: XLen, va: u64) -> bool {
    match xlen {
        XLen::X32 => true,
        XLen::X64 => {
            let top = va >> 38u64;
            top == 0 || top == 0x3ff_ffff
        }
    }
}

/// What translating `va` for `opt` gives, with `satp`, `mstatus` and privilege `p`.
pub open spec fn translate_spec(bus: &Bus, xlen: XLen, satp: u64, mstatus: u64, p: Privilege, va: u64, opt: MmuOpt) -> Result<u64, Exception> {
    let ep = effective_privilege(mstatus, p, opt);
    match paging_mode_spec(xlen, satp) {
        None => Ok(va),
        Some(m) => if ep == Privilege::M {
            Ok(va)
        } else if !canonical(xlen, va) {
            Err(page_fault(opt, va))
        } else {
            walk(bus, m, field(satp, m.satp_ppn_msb, 0) << 12u64, va, (m.levels - 1) as u64, opt, ep, mstatus)
        },
    }
}

pub fn paging_mode(xlen: XLen, satp: u64) -> (r: Option<PagingMode>)
    ensures
        r == paging_mode_spec(xlen, satp),
{
    match xlen {
        XLen::X32 => if bit_range(satp, 31, 31) == 1 {
            Some(PagingMode { levels: 2, pte_size: 4, vpn_bits: 10, pte_ppn_msb: 31, satp_ppn_msb: 21 })
        } else {
            None
        },
        XLen::X64 => if bit_range(satp, 63, 60) == 8 {
            Some(PagingMode { levels: 3, pte_size: 8, vpn_bits: 9, pte_ppn_msb: 53, satp_ppn_msb: 43 })
        } else {
            None
        },
    }
}

fn effective(mstatus: u64, p: Privilege, opt: MmuOpt) -> (r: Privilege)
    ensures
        r == effective_privilege(mstatus, p, opt),
{
    if opt != MmuOpt::Fetch && bit_range(mstatus, 17, 17) == 1 {
        match Privilege::from_value(bit_range(mstatus, 12, 11)) {
            Some(q) => q,
            None => p,
        }
    } else {
        p
    }
}

fn fault(opt: MmuOpt, va: u64) -> (r: Exception)
    ensures
        r == page_fault(opt, va),
{
    match opt {
        MmuOpt::Fetch => Exception::FetchPageFault(va),
        MmuOpt::Load => Exception::LoadPageFault(va),
        MmuOpt::Store => Exception::StorePageFault(va),
    }
}

fn access(opt: MmuOpt, va: u64) -> (r: Exception)
    ensures
        r == access_fault(opt, va),
{
    match opt {
        MmuOpt::Fetch => Exception::FetchAccess(va),
        MmuOpt::Load => Exception::LoadAccess(va),
        MmuOpt::Store => Exception::StoreAccess(va),
    }
}

fn allows(pte: u64, opt: MmuOpt, p: Privilege, mstatus: u64) -> (r: bool)
    ensures
        r == leaf_allows(pte, opt, p, mstatus),
{
    let r = bit_range(pte, 1, 1) == 1;
    let w = bit_range(pte, 2, 2) == 1;
    let x = bit_range(pte, 3, 3) == 1;
    let u = bit_range(pte, 4, 4) == 1;
    let a = bit_range(pte, 6, 6) == 1;
    let d = bit_range(pte, 7, 7) == 1;
    let sum = bit_range(mstatus, 18, 18) == 1;
    let mxr = bit_range(mstatus, 19, 19) == 1;
    let kind_ok = match opt {
        MmuOpt::Fetch => x,
        MmuOpt::Load => r || (x && mxr),
        MmuOpt::Store => w && d,
    };
    let user_ok = match p {
        Privilege::U => u,
        Privilege::S => !u || (sum && opt != MmuOpt::Fetch),
        Privilege::M => true,
    };
    kind_ok && user_ok && a
}

pub open spec fn known_mode(m: PagingMode) -> bool {
    m == sv32() || m == sv39()
}

/// Translates `va` for an access of kind `opt`.
pub fn translate(bus: &Bus, xlen: XLen, satp: u64, mstatus: u64, p: Privilege, va: u64, opt: MmuOpt) -> (r: Result<u64, Exception>)
    requires
        bus.wf(),
    ensures
        r == translate_spec(bus, xlen, satp, mstatus, p, va, opt),
{
    let ep = effective(mstatus, p, opt);
    let m = match paging_mode(xlen, satp) {
        None => return Ok(va),
        Some(m) => m,
    };
    if ep == Privilege::M {
        return Ok(va);
    }
    let canon = match xlen {
        XLen::X32 => true,
        XLen::X64 => {
            let top = va >> 38u64;
            top == 0 || top == 0x3ff_ffff
        }
    };
    if !canon {
        return Err(fault(opt, va));
    }
    let mut table = bit_range(satp, m.satp_ppn_msb, 0) << 12u64;
    let mut i: u64 = m.levels - 1;
    loop
        invariant
            bus.wf(),
            known_mode(m),
            i < m.levels,
            translate_spec(bus, xlen, satp, mstatus, p, va, opt) == walk(bus, m, table, va, i, opt, ep, mstatus),
        decreases i,
    {
        proof {
            assert(m.vpn_bits * i <= 20) by (nonlinear_arith)
                requires
                    m.vpn_bits <= 10,
                    i <= 2,
            ;
        }
        let lsb = 12 + m.vpn_bits * i;
        let vpn_i = bit_range(va, lsb + m.vpn_bits - 1, lsb);
        proof {
            lemma_and_le(va >> lsb, low_mask(m.vpn_bits));
            assert(1u64 << 10u64 == 1024 && 1u64 << 9u64 == 512) by (bit_vector);
            assert(((lsb + m.vpn_bits - 1) - lsb + 1) as u64 == m.vpn_bits);
            assert(vpn_i <= 1023);
            assert(vpn_i * m.pte_size <= 1023 * 8) by (nonlinear_arith)
                requires
                    vpn_i <= 1023,
                    m.pte_size <= 8,
            ;
        }
        let addr = table | (vpn_i * m.pte_size);
        let pte = match bus.read(addr, m.pte_size) {
            Err(_) => return Err(access(opt, va)),
            Ok(pte) => pte,
        };
        let v = bit_range(pte, 0, 0) == 1;
        let r = bit_range(pte, 1, 1) == 1;
        let w = bit_range(pte, 2, 2) == 1;
        let x = bit_range(pte, 3, 3) == 1;
        if !v || (!r && w) {
            return Err(fault(opt, va));
        } else if r || x {
            if !allows(pte, opt, ep, mstatus) {
                return Err(fault(opt, va));
            } else if i > 0 && bit_range(pte, 10 + m.vpn_bits * i - 1, 10) != 0 {
                return Err(fault(opt, va));
            } else {
                let ppn = bit_range(pte, m.pte_ppn_msb, 10);
                return Ok((((ppn << 12u64) >> lsb) << lsb) | (va & mask_bits(lsb)));
            }
        } else if i == 0 {
            return Err(fault(opt, va));
        } else {
            table = bit_range(pte, m.pte_ppn_msb, 10) << 12u64;
            i = i - 1;
        }
    }
}

/// The translation unit of a hart: translation under the hart's `satp`, `mstatus` and privilege.
pub struct Mmu {}

impl Mmu {
    pub fn new() -> (r: Mmu) {
        Mmu {}
    }

    pub fn translate(&self, s: &ProcessorState, bus: &Bus, va: u64, opt: MmuOpt) -> (r: Result<u64, Exception>)
        requires
            s.wf(),
            bus.wf(),
        ensures
            r == translate_spec(bus, s.config.xlen, s.csrs.reg(SLOT_SATP), s.csrs.reg(SLOT_MSTATUS), s.privilege, va, opt),
    {
        translate(bus, s.config.xlen, s.csrs.get(SLOT_SATP), s.csrs.get(SLOT_MSTATUS), s.privilege, va, opt)
    }
}

/// `b` is `a + 2` within the same 4 KiB page, with `a` on a half-word boundary.
pub open spec fn next_half_in_page(a: u64, b: u64) -> bool {
    a % 4 == 2 && a % 4096 != 4094 && b == a + 2
}

proof fn lemma_same_page_bits(va: u64, va2: u64, low: u64)
    requires
        next_half_in_page(va, va2),
        12 <= low < 64,
    ensures
        va2 >> low == va >> low,
        va2 & low_mask(low) == (va & low_mask(low)) + 2,
{
    let m = low_mask(low);
    assert(m == ((1u64 << low) - 1) as u64);
    assert(va2 >> low == va >> low && va2 & m == (va & m) + 2) by (bit_vector)
        requires
            va % 4 == 2,
            va % 4096 != 4094,
            va2 == va + 2,
            12 <= low < 64,
            m == ((1u64 << low) - 1) as u64,
    ;
}

proof fn lemma_leaf_next_half(m: PagingMode, pte: u64, va: u64, va2: u64, i: u64)
    requires
        known_mode(m),
        i < m.levels,
        next_half_in_page(va, va2),
    ensures
        next_half_in_page(leaf_address(m, pte, va, i), leaf_address(m, pte, va2, i)),
{
    let low = page_low_bits(m, i);
    assert(m.vpn_bits * i <= 20) by (nonlinear_arith)
        requires
            m.vpn_bits <= 10,
            i <= 2,
    ;
    lemma_same_page_bits(va, va2, low);
    let ppn = field(pte, m.pte_ppn_msb, 10);
    let hi = ((ppn << 12u64) >> low) << low;
    let lm = low_mask(low);
    assert(lm == ((1u64 << low) - 1) as u64);
    let x = va & lm;
    let y = va2 & lm;
    assert(next_half_in_page(hi | x, hi | y)) by (bit_vector)
        requires
            hi == ((ppn << 12u64) >> low) << low,
            12 <= low < 64,
            lm == ((1u64 << low) - 1) as u64,
            x == va & lm,
            y == x + 2,
            va % 4 == 2,
            va % 4096 != 4094,
    ;
}

proof fn lemma_vpn_same(m: PagingMode, va: u64, va2: u64, i: u64)
    requires
        known_mode(m),
        i < m.levels,
        next_half_in_page(va, va2),
    ensures
        vpn(m, va, i) == vpn(m, va2, i),
{
    assert(m.vpn_bits * i <= 20) by (nonlinear_arith)
        requires
            m.vpn_bits <= 10,
            i <= 2,
    ;
    let lsb = (12 + m.vpn_bits * i) as u64;
    lemma_same_page_bits(va, va2, lsb);
}

proof fn lemma_walk_next_half(bus: &Bus, m: PagingMode, table: u64, va: u64, va2: u64, i: u64, opt: MmuOpt, p: Privilege, mstatus: u64)
    requires
        known_mode(m),
        i < m.levels,
        next_half_in_page(va, va2),
    ensures
        walk(bus, m, table, va, i, opt, p, mstatus) matches Ok(pa) ==> (walk(bus, m, table, va2, i, opt, p, mstatus) matches Ok(pa2) && next_half_in_page(pa, pa2)),
    decreases i,
{
    lemma_vpn_same(m, va, va2, i);
    if let Ok(pa) = walk(bus, m, table, va, i, opt, p, mstatus) {
        let addr = table | (vpn(m, va, i) * m.pte_size) as u64;
        let pte = bus.read_spec(addr, m.pte_size)->Ok_0;
        let r = field(pte, 1, 1) == 1;
        let x = field(pte, 3, 3) == 1;
        if r || x {
            lemma_leaf_next_half(m, pte, va, va2, i);
        } else {
            lemma_walk_next_half(bus, m, field(pte, m.pte_ppn_msb, 10) << 12u64, va, va2, (i - 1) as u64, opt, p, mstatus);
        }
    }
}

/// Translating the second half of a 32-bit instruction that lies within one page gives the
/// physical address of the first half plus two.
pub proof fn lemma_translate_next_half(bus: &Bus, xlen: XLen, satp: u64, mstatus: u64, p: Privilege, va: u64, opt: MmuOpt)
    requires
        va % 4 == 2,
        va % 4096 != 4094,
    ensures
        translate_spec(bus, xlen, satp, mstatus, p, va, opt) matches Ok(pa) ==> (translate_spec(bus, xlen, satp,
            mstatus, p, (va + 2) as u64, opt) matches Ok(pa2) && next_half_in_page(pa, pa2)),
{
    let va2 = (va + 2) as u64;
    if let Some(m) = paging_mode_spec(xlen, satp) {
        if effective_privilege(mstatus, p, opt) != Privilege::M {
            if canonical(xlen, va) {
                assert(canonical(xlen, va2)) by {
                    if xlen == XLen::X64 {
                        lemma_same_page_bits(va, va2, 38);
                    }
                }
                lemma_walk_next_half(bus, m, field(satp, m.satp_ppn_msb, 0) << 12u64, va, va2, (m.levels - 1) as u64,
                    opt, effective_privilege(mstatus, p, opt), mstatus);
            }
        }
    }
}

proof fn lemma_walk_offset(bus: &Bus, m: PagingMode, table: u64, va: u64, i: u64, opt: MmuOpt, p: Privilege, mstatus: u64)
    requires
        known_mode(m),
        i < m.levels,
    ensures
        walk(bus, m, table, va, i, opt, p, mstatus) matches Ok(pa) ==> pa % 4096 == va % 4096,
    decreases i,
{
    if let Ok(pa) = walk(bus, m, table, va, i, opt, p, mstatus) {
        let addr = table | (vpn(m, va, i) * m.pte_size) as u64;
        let pte = bus.read_spec(addr, m.pte_size)->Ok_0;
        if field(pte, 1, 1) == 1 || field(pte, 3, 3) == 1 {
            assert(m.vpn_bits * i <= 20) by (nonlinear_arith)
                requires
                    m.vpn_bits <= 10,
                    i <= 2,
            ;
            let low = page_low_bits(m, i);
            let ppn = field(pte, m.pte_ppn_msb, 10);
            let hi = ((ppn << 12u64) >> low) << low;
            let lm = low_mask(low);
            assert(lm == ((1u64 << low) - 1) as u64);
            assert((hi | (va & lm)) % 4096 == va % 4096) by (bit_vector)
                requires
                    hi == ((ppn << 12u64) >> low) << low,
                    12 <= low < 64,
                    lm == ((1u64 << low) - 1) as u64,
            ;
        } else {
            lemma_walk_offset(bus, m, field(pte, m.pte_ppn_msb, 10) << 12u64, va, (i - 1) as u64, opt, p, mstatus);
        }
    }
}

/// Translation keeps the offset within the 4 KiB page.
pub proof fn lemma_translate_offset(bus: &Bus, xlen: XLen, satp: u64, mstatus: u64, p: Privilege, va: u64, opt: MmuOpt)
    ensures
        translate_spec(bus, xlen, satp, mstatus, p, va, opt) matches Ok(pa) ==> pa % 4096 == va % 4096,
{
    if let Some(m) = paging_mode_spec(xlen, satp) {
        if effective_privilege(mstatus, p, opt) != Privilege::M && canonical(xlen, va) {
            lemma_walk_offset(bus, m, field(satp, m.satp_ppn_msb, 0) << 12u64, va, (m.levels - 1) as u64, opt,
                effective_privilege(mstatus, p, opt), mstatus);
        }
    }
}

} // verus!
