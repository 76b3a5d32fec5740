//! The instruction handlers: each checks everything that can fail before it commits anything.
use vstd::prelude::*;
use crate::bits::{bit_range, set_bit_range, sign_extend, sext};
use crate::bus::Bus;
use crate::config::{XLen, Privilege, PrivilegeLevel};
use crate::csr::{SLOT_MSTATUS, SLOT_MEPC, SLOT_SEPC};
use crate::decode::{InsnKind, AluOp, BranchCond, AmoOp};
use crate::muldiv::{MulOp, muldiv_exec};
use crate::load_store::LoadStore;
use crate::semantics::{Effect, wrap_add, ir_field, xw, xm, nanbox, float_ok, advance, with_load, c_store, f_load, f_store, jump_to, cj_off, cb_off, ci_imm, c_jal_spec, c_addiw_spec, c_jr_spec, c_branch_spec, c_li_spec, c_lui_spec, mret_spec, sret_spec, csr_op_spec, insn_spec, is_compressed, base_spec, checked_jump,
    i_imm, s_imm, b_imm, u_imm, j_imm, alu, alu32, sra64, signed_lt, branch_taken, shamt_mask, wrap_sub, write_rd,
    amo_value, atomic_spec};
use crate::bus::BusError;
use crate::csr::SLOT_SATP;
use crate::mmu::{MmuOpt, translate};
use crate::state::ProcessorState;
use crate::trap::Exception;

verus! {

/// `new` is `old` with the effect `e` committed.
pub open spec fn applied(new: &ProcessorState, old: &ProcessorState, e: Effect) -> bool {
    &&& new.xreg@ == e.xreg
    &&& new.freg@ == e.freg
    &&& new.csrs.regs@ == e.csrs
    &&& new.next_pc == e.next_pc
    &&& new.privilege == e.privilege
    &&& new.reservation == e.reservation
    &&& new.config == old.config
    &&& new.extensions@ == old.extensions@
    &&& new.pc == old.pc
    &&& new.ir == old.ir
    &&& new.insns_cnt == old.insns_cnt
    &&& new.csrs.xlen == old.csrs.xlen
    &&& new.csrs.level == old.csrs.level
    &&& new.csrs.has_s == old.csrs.has_s
}

/// The handler returned what the instruction's specification gives, committed its effect on
/// success, and changed nothing on an exception.
pub open spec fn committed(new_s: &ProcessorState, old_s: &ProcessorState, new_bus: &Bus, old_bus: &Bus,
    r: Result<bool, Exception>, spec: Result<Effect, Exception>) -> bool {
    &&& new_bus.regions@ == old_bus.regions@
    &&& match spec {
        Ok(e) => r == Ok::<bool, Exception>(e.flush) && applied(new_s, old_s, e) && new_bus.data@ == e.mem,
        Err(x) => r == Err::<bool, Exception>(x) && *new_s == *old_s && new_bus.data@ == old_bus.data@,
    }
}

fn ir_bits(s: &ProcessorState, msb: u64, lsb: u64) -> (r: u64)
    requires
        lsb <= msb < 64,
    ensures
        r == ir_field(s, msb, lsb),
{
    bit_range(s.ir as u64, msb, lsb)
}

/// A compact register field (three bits from `lsb` on), naming `x8` to `x15`.
fn compact_reg(s: &ProcessorState, lsb: u64) -> (r: u64)
    requires
        lsb <= 61,
    ensures
        r == ir_field(s, (lsb + 2) as u64, lsb) + 8,
{
    let f = ir_bits(s, lsb + 2, lsb);
    proof {
        crate::bits::lemma_and_le((s.ir as u64) >> lsb, crate::bits::low_mask(3));
        assert(1u64 << 3u64 == 8) by (bit_vector);
    }
    f + 8
}

fn is_float_ok(s: &ProcessorState) -> (r: bool)
    requires
        s.wf(),
    ensures
        r == float_ok(s),
{
    s.check_extension('f').is_ok() && bit_range(s.csrs.get(SLOT_MSTATUS), 14, 13) != 0
}

fn nan_box(s: &ProcessorState, v: u64) -> (r: u64)
    ensures
        r == nanbox(s, v),
{
    if s.check_extension('d').is_ok() {
        (v & 0xffff_ffff) | 0xffff_ffff_0000_0000
    } else {
        v & 0xffff_ffff
    }
}

/// Loads into integer register `rd`, sign-extending a word, then moves on two bytes.
fn c_load_x(s: &mut ProcessorState, ls: &LoadStore, bus: &Bus, va: u64, width: u64, rd: u64) -> (r: Result<bool, Exception>)
    requires
        old(s).wf(),
        bus.wf(),
        width == 4 || width == 8,
    ensures
        final(s).wf(),
        committed(final(s), old(s), bus, bus, r, with_load(old(s), bus, va, width,
            |d: u64| Effect { xreg: xw(old(s), rd, (if width == 4 { sext(d, 32) } else { d }) & xm(old(s))), ..advance(old(s), bus, 2) })),
{
    let d = ls.load(s, bus, va, width)?;
    let v = if width == 4 { sign_extend(d, 32) } else { d };
    let m = s.config.xlen.mask();
    s.set_xreg(rd, v & m);
    let next = s.pc.wrapping_add(2);
    s.set_pc(next);
    Ok(false)
}

/// A float load into float register `fd`, then on by the instruction's `len` bytes.
fn c_load_f(s: &mut ProcessorState, ls: &LoadStore, bus: &Bus, va: u64, width: u64, fd: u64, len: u64) -> (r: Result<bool, Exception>)
    requires
        old(s).wf(),
        bus.wf(),
        width == 4 || width == 8,
        fd < 32,
    ensures
        final(s).wf(),
        committed(final(s), old(s), bus, bus, r, f_load(old(s), bus, va, width, fd, len)),
{
    if !is_float_ok(s) {
        return Err(s.illegal_insn());
    }
    let d = ls.load(s, bus, va, width)?;
    let v = if width == 4 { nan_box(s, d) } else { d };
    s.freg.set(fd as usize, v);
    let ms = s.csrs.get(SLOT_MSTATUS);
    s.csrs.set(SLOT_MSTATUS, set_bit_range(ms, 14, 13, 3));
    let next = s.pc.wrapping_add(len);
    s.set_pc(next);
    Ok(false)
}

/// Stores the low `width` bytes of `v` at `va`, then on two bytes.
fn c_store_v(s: &mut ProcessorState, ls: &LoadStore, bus: &mut Bus, va: u64, v: u64, width: u64) -> (r: Result<bool, Exception>)
    requires
        old(s).wf(),
        old(bus).wf(),
        width == 4 || width == 8,
    ensures
        final(s).wf(),
        final(bus).wf(),
        committed(final(s), old(s), final(bus), old(bus), r, c_store(old(s), old(bus), va, v, width)),
{
    ls.store(s, bus, va, v, width)?;
    let next = s.pc.wrapping_add(2);
    s.set_pc(next);
    Ok(false)
}

fn c_store_f(s: &mut ProcessorState, ls: &LoadStore, bus: &mut Bus, va: u64, width: u64, fs: u64, len: u64) -> (r: Result<bool, Exception>)
    requires
        old(s).wf(),
        old(bus).wf(),
        width == 4 || width == 8,
        fs < 32,
    ensures
        final(s).wf(),
        final(bus).wf(),
        committed(final(s), old(s), final(bus), old(bus), r, f_store(old(s), old(bus), va, width, fs, len)),
{
    if !is_float_ok(s) {
        return Err(s.illegal_insn());
    }
    let v = s.freg[fs as usize];
    ls.store(s, bus, va, v, width)?;
    let next = s.pc.wrapping_add(len);
    s.set_pc(next);
    Ok(false)
}

fn jump(s: &mut ProcessorState, bus: &Bus, target: u64) -> (r: Result<bool, Exception>)
    requires
        old(s).wf(),
    ensures
        final(s).wf(),
        committed(final(s), old(s), bus, bus, r, jump_to(old(s), bus, target)),
{
    if target & 1 != 0 {
        return Err(Exception::FetchMisaligned(target));
    }
    s.set_pc(target);
    Ok(false)
}

fn c_jal(s: &mut ProcessorState, bus: &Bus) -> (r: Result<bool, Exception>)
    requires
        old(s).wf(),
    ensures
        final(s).wf(),
        committed(final(s), old(s), bus, bus, r, c_jal_spec(old(s), bus)),
{
    let off = cj_offset(s);
    let m = s.config.xlen.mask();
    let target = s.pc.wrapping_add(off) & m;
    jump(s, bus, target)?;
    let link = s.pc.wrapping_add(2) & m;
    s.set_xreg(1, link);
    Ok(false)
}

fn cj_offset(s: &ProcessorState) -> (r: u64)
    ensures
        r == cj_off(s),
{
    sign_extend(ir_bits(s, 12, 12) << 11u64 | ir_bits(s, 11, 11) << 4u64 | ir_bits(s, 10, 9) << 8u64 | ir_bits(s, 8, 8)
        << 10u64 | ir_bits(s, 7, 7) << 6u64 | ir_bits(s, 6, 6) << 7u64 | ir_bits(s, 5, 3) << 1u64 | ir_bits(s, 2, 2)
        << 5u64, 12)
}

fn cb_offset(s: &ProcessorState) -> (r: u64)
    ensures
        r == cb_off(s),
{
    sign_extend(ir_bits(s, 12, 12) << 8u64 | ir_bits(s, 11, 10) << 3u64 | ir_bits(s, 6, 5) << 6u64 | ir_bits(s, 4, 3)
        << 1u64 | ir_bits(s, 2, 2) << 5u64, 9)
}

fn ci_immediate(s: &ProcessorState) -> (r: u64)
    ensures
        r == ci_imm(s),
{
    ir_bits(s, 12, 12) << 5u64 | ir_bits(s, 6, 2)
}

fn c_addiw(s: &mut ProcessorState, bus: &Bus) -> (r: Result<bool, Exception>)
    requires
        old(s).wf(),
    ensures
        final(s).wf(),
        committed(final(s), old(s), bus, bus, r, c_addiw_spec(old(s), bus)),
{
    let rd = ir_bits(s, 11, 7);
    if rd == 0 {
        return Err(s.illegal_insn());
    }
    let sum = s.xreg(rd).wrapping_add(sign_extend(ci_immediate(s), 6));
    s.set_xreg(rd, sign_extend(sum & 0xffff_ffff, 32));
    let next = s.pc.wrapping_add(2);
    s.set_pc(next);
    Ok(false)
}

fn c_jr(s: &mut ProcessorState, bus: &Bus, link: bool) -> (r: Result<bool, Exception>)
    requires
        old(s).wf(),
    ensures
        final(s).wf(),
        committed(final(s), old(s), bus, bus, r, c_jr_spec(old(s), bus, link)),
{
    let rs1 = ir_bits(s, 11, 7);
    if rs1 == 0 {
        return Err(s.illegal_insn());
    }
    let target = s.xreg(rs1);
    jump(s, bus, target)?;
    if link {
        let ra = s.pc.wrapping_add(2) & s.config.xlen.mask();
        s.set_xreg(1, ra);
    }
    Ok(false)
}

fn c_branch(s: &mut ProcessorState, bus: &Bus, on_zero: bool) -> (r: Result<bool, Exception>)
    requires
        old(s).wf(),
    ensures
        final(s).wf(),
        committed(final(s), old(s), bus, bus, r, c_branch_spec(old(s), bus, on_zero)),
{
    let v = s.xreg(compact_reg(s, 7));
    if (v == 0) == on_zero {
        let target = s.pc.wrapping_add(cb_offset(s)) & s.config.xlen.mask();
        jump(s, bus, target)
    } else {
        let next = s.pc.wrapping_add(2);
        s.set_pc(next);
        Ok(false)
    }
}

fn c_li(s: &mut ProcessorState, bus: &Bus) -> (r: Result<bool, Exception>)
    requires
        old(s).wf(),
    ensures
        final(s).wf(),
        committed(final(s), old(s), bus, bus, r, c_li_spec(old(s), bus)),
{
    let rd = ir_bits(s, 11, 7);
    if rd == 0 {
        return Err(s.illegal_insn());
    }
    let v = sign_extend(ci_immediate(s), 6) & s.config.xlen.mask();
    s.set_xreg(rd, v);
    let next = s.pc.wrapping_add(2);
    s.set_pc(next);
    Ok(false)
}

fn c_lui(s: &mut ProcessorState, bus: &Bus) -> (r: Result<bool, Exception>)
    requires
        old(s).wf(),
    ensures
        final(s).wf(),
        committed(final(s), old(s), bus, bus, r, c_lui_spec(old(s), bus)),
{
    let rd = ir_bits(s, 11, 7);
    let imm = ci_immediate(s);
    if rd == 0 || rd == 2 || imm == 0 {
        return Err(s.illegal_insn());
    }
    let v = sign_extend(imm << 12u64, 18) & s.config.xlen.mask();
    s.set_xreg(rd, v);
    let next = s.pc.wrapping_add(2);
    s.set_pc(next);
    Ok(false)
}

fn mret(s: &mut ProcessorState, bus: &Bus) -> (r: Result<bool, Exception>)
    requires
        old(s).wf(),
    ensures
        final(s).wf(),
        committed(final(s), old(s), bus, bus, r, mret_spec(old(s), bus)),
{
    if s.privilege != Privilege::M {
        return Err(s.illegal_insn());
    }
    let ms = s.csrs.get(SLOT_MSTATUS);
    let mpp = bit_range(ms, 12, 11);
    let target = if mpp == 3 {
        Privilege::M
    } else if mpp == 1 {
        Privilege::S
    } else {
        Privilege::U
    };
    let least: u64 = if s.config.privilege_level == PrivilegeLevel::M { 3 } else { 0 };
    let ms1 = set_bit_range(set_bit_range(set_bit_range(ms, 3, 3, bit_range(ms, 7, 7)), 7, 7, 1), 12, 11, least);
    let p = s.set_privilege(target);
    let ms2 = if p != Privilege::M { set_bit_range(ms1, 17, 17, 0) } else { ms1 };
    s.csrs.set(SLOT_MSTATUS, ms2);
    let epc = s.csrs.get(SLOT_MEPC) & s.config.xlen.mask();
    s.set_pc(epc);
    Ok(false)
}

fn sret(s: &mut ProcessorState, bus: &Bus) -> (r: Result<bool, Exception>)
    requires
        old(s).wf(),
    ensures
        final(s).wf(),
        committed(final(s), old(s), bus, bus, r, sret_spec(old(s), bus)),
{
    let ms = s.csrs.get(SLOT_MSTATUS);
    if s.config.privilege_level != PrivilegeLevel::MSU || s.privilege == Privilege::U || (s.privilege == Privilege::S
        && bit_range(ms, 22, 22) == 1) {
        return Err(s.illegal_insn());
    }
    let target = if bit_range(ms, 8, 8) == 1 { Privilege::S } else { Privilege::U };
    let ms1 = set_bit_range(set_bit_range(set_bit_range(set_bit_range(ms, 1, 1, bit_range(ms, 5, 5)), 5, 5, 1), 8, 8, 0), 17, 17, 0);
    s.set_privilege(target);
    s.csrs.set(SLOT_MSTATUS, ms1);
    let epc = s.csrs.get(SLOT_SEPC) & s.config.xlen.mask();
    s.set_pc(epc);
    Ok(false)
}

fn csr_op(s: &mut ProcessorState, bus: &Bus, op: u64, v: u64) -> (r: Result<bool, Exception>)
    requires
        old(s).wf(),
        1 <= op <= 3,
    ensures
        final(s).wf(),
        committed(final(s), old(s), bus, bus, r, csr_op_spec(old(s), bus, op, v)),
{
    let id = ir_bits(s, 31, 20);
    let rd = ir_bits(s, 11, 7);
    let reads = op != 1 || rd != 0;
    let writes = op == 1 || ir_bits(s, 19, 15) != 0;
    let o = if reads { s.csr(id)? } else { 0 };
    let nv = if op == 1 { v } else if op == 2 { o | v } else { o & !v };
    if writes && !s.csr_write_allowed(id) {
        return Err(s.illegal_insn());
    }
    if writes {
        let _ = s.set_csr(id, nv);
    }
    let flush = writes && id & 0xfff == 0x180;
    s.set_xreg(rd, o);
    let next = s.pc.wrapping_add(4);
    s.set_pc(next);
    Ok(flush)
}

fn advance_by(s: &mut ProcessorState, len: u64, flush: bool) -> (r: Result<bool, Exception>)
    ensures
        *final(s) == (ProcessorState { next_pc: wrap_add(old(s).pc, len), ..*old(s) }),
        r == Ok::<bool, Exception>(flush),
{
    let next = s.pc.wrapping_add(len);
    s.set_pc(next);
    Ok(flush)
}

/// Executes instruction `kind` on the hart's current word `ir`. The result is `Ok(flush)`, with
/// `flush` telling whether the instruction cache must be flushed.
pub fn execute_kind(kind: InsnKind, s: &mut ProcessorState, ls: &LoadStore, bus: &mut Bus) -> (r: Result<bool, Exception>)
    requires
        old(s).wf(),
        old(bus).wf(),
    ensures
        final(s).wf(),
        final(bus).wf(),
        committed(final(s), old(s), final(bus), old(bus), r, insn_spec(kind, old(s), old(bus))),
{
    let is_c = compressed(kind);
    if is_c {
        s.check_extension('c')?;
    }
    let needs_d = kind == InsnKind::CFldsp || kind == InsnKind::CFsdsp || kind == InsnKind::CFld || kind == InsnKind::CFsd;
    if needs_d {
        s.check_extension('d')?;
    }
    let x64 = s.config.xlen == XLen::X64;
    let sp = s.xreg(2);
    let b = s.xreg(compact_reg(s, 7));
    let rd = ir_bits(s, 11, 7);
    let rs2 = ir_bits(s, 6, 2);
    let rdp = compact_reg(s, 2);
    let lwsp = ir_bits(s, 3, 2) << 6u64 | ir_bits(s, 12, 12) << 5u64 | ir_bits(s, 6, 4) << 2u64;
    let ldsp = ir_bits(s, 4, 2) << 6u64 | ir_bits(s, 12, 12) << 5u64 | ir_bits(s, 6, 5) << 3u64;
    let swsp = ir_bits(s, 8, 7) << 6u64 | ir_bits(s, 12, 9) << 2u64;
    let sdsp = ir_bits(s, 9, 7) << 6u64 | ir_bits(s, 12, 10) << 3u64;
    let lw = ir_bits(s, 5, 5) << 6u64 | ir_bits(s, 12, 10) << 3u64 | ir_bits(s, 6, 6) << 2u64;
    let ld = ir_bits(s, 6, 5) << 6u64 | ir_bits(s, 12, 10) << 3u64;
    proof {
        assert(ir_field(old(s), 11, 7) < 32 && ir_field(old(s), 6, 2) < 32 && ir_field(old(s), 4, 2) < 8) by {
            let x = old(s).ir as u64;
            assert((x >> 7u64) & 31 < 32 && (x >> 2u64) & 31 < 32 && (x >> 2u64) & 7 < 8) by (bit_vector);
            assert(crate::bits::low_mask(5) == 31 && crate::bits::low_mask(3) == 7) by {
                assert(1u64 << 5u64 == 32 && 1u64 << 3u64 == 8) by (bit_vector);
            }
        }
    }
    match kind {
        InsnKind::CLwsp => {
            if rd == 0 {
                return Err(s.illegal_insn());
            }
            c_load_x(s, ls, bus, sp.wrapping_add(lwsp), 4, rd)
        },
        InsnKind::CLdspFlwsp => if x64 {
            if rd == 0 {
                return Err(s.illegal_insn());
            }
            c_load_x(s, ls, bus, sp.wrapping_add(ldsp), 8, rd)
        } else {
            c_load_f(s, ls, bus, sp.wrapping_add(lwsp), 4, rd, 2)
        },
        InsnKind::CFldsp => c_load_f(s, ls, bus, sp.wrapping_add(ldsp), 8, rd, 2),
        InsnKind::CSwsp => {
            let v = s.xreg(rs2);
            c_store_v(s, ls, bus, sp.wrapping_add(swsp), v, 4)
        },
        InsnKind::CSdspFswsp => if x64 {
            let v = s.xreg(rs2);
            c_store_v(s, ls, bus, sp.wrapping_add(sdsp), v, 8)
        } else {
            c_store_f(s, ls, bus, sp.wrapping_add(swsp), 4, rs2, 2)
        },
        InsnKind::CFsdsp => c_store_f(s, ls, bus, sp.wrapping_add(sdsp), 8, rs2, 2),
        InsnKind::CLw => c_load_x(s, ls, bus, b.wrapping_add(lw), 4, rdp),
        InsnKind::CLdFlw => if x64 {
            c_load_x(s, ls, bus, b.wrapping_add(ld), 8, rdp)
        } else {
            c_load_f(s, ls, bus, b.wrapping_add(lw), 4, rdp, 2)
        },
        InsnKind::CFld => c_load_f(s, ls, bus, b.wrapping_add(ld), 8, rdp, 2),
        InsnKind::CSw => {
            let v = s.xreg(rdp);
            c_store_v(s, ls, bus, b.wrapping_add(lw), v, 4)
        },
        InsnKind::CSdFsw => if x64 {
            let v = s.xreg(rdp);
            c_store_v(s, ls, bus, b.wrapping_add(ld), v, 8)
        } else {
            c_store_f(s, ls, bus, b.wrapping_add(lw), 4, rdp, 2)
        },
        InsnKind::CFsd => c_store_f(s, ls, bus, b.wrapping_add(ld), 8, rdp, 2),
        InsnKind::CJ => {
            let target = s.pc.wrapping_add(cj_offset(s)) & s.config.xlen.mask();
            jump(s, bus, target)
        },
        InsnKind::CJalAddiw => if x64 { c_addiw(s, bus) } else { c_jal(s, bus) },
        InsnKind::CJr => c_jr(s, bus, false),
        InsnKind::CJalr => c_jr(s, bus, true),
        InsnKind::CBeqz => c_branch(s, bus, true),
        InsnKind::CBnez => c_branch(s, bus, false),
        InsnKind::CLi => c_li(s, bus),
        InsnKind::CLui => c_lui(s, bus),
        InsnKind::Ecall => Err(match s.privilege {
            Privilege::U => Exception::UEcall,
            Privilege::S => Exception::SEcall,
            Privilege::M => Exception::MEcall,
        }),
        InsnKind::Ebreak => Err(Exception::Breakpoint(s.pc)),
        InsnKind::Mret => mret(s, bus),
        InsnKind::Sret => sret(s, bus),
        InsnKind::Wfi => {
            if s.privilege != Privilege::M && bit_range(s.csrs.get(SLOT_MSTATUS), 21, 21) == 1 {
                return Err(s.illegal_insn());
            }
            advance_by(s, 4, false)
        },
        InsnKind::SfenceVma => {
            if s.privilege == Privilege::U || (s.privilege == Privilege::S && bit_range(s.csrs.get(SLOT_MSTATUS), 20, 20) == 1) {
                return Err(s.illegal_insn());
            }
            advance_by(s, 4, true)
        },
        InsnKind::Fence => advance_by(s, 4, false),
        InsnKind::FenceI => advance_by(s, 4, true),
        InsnKind::Csrrw => {
            let v = s.xreg(ir_bits(s, 19, 15));
            csr_op(s, bus, 1, v)
        },
        InsnKind::Csrrs => {
            let v = s.xreg(ir_bits(s, 19, 15));
            csr_op(s, bus, 2, v)
        },
        InsnKind::Csrrc => {
            let v = s.xreg(ir_bits(s, 19, 15));
            csr_op(s, bus, 3, v)
        },
        InsnKind::Csrrwi => csr_op(s, bus, 1, ir_bits(s, 19, 15)),
        InsnKind::Csrrsi => csr_op(s, bus, 2, ir_bits(s, 19, 15)),
        InsnKind::Csrrci => csr_op(s, bus, 3, ir_bits(s, 19, 15)),
        _ => base(kind, s, ls, bus),
    }
}

fn compressed(kind: InsnKind) -> (r: bool)
    ensures
        r == is_compressed(kind),
{
    match kind {
        InsnKind::CLwsp | InsnKind::CLdspFlwsp | InsnKind::CFldsp | InsnKind::CSwsp | InsnKind::CSdspFswsp
        | InsnKind::CFsdsp | InsnKind::CLw | InsnKind::CLdFlw | InsnKind::CFld | InsnKind::CSw | InsnKind::CSdFsw
        | InsnKind::CFsd | InsnKind::CJ | InsnKind::CJalAddiw | InsnKind::CJr | InsnKind::CJalr | InsnKind::CBeqz
        | InsnKind::CBnez | InsnKind::CLi | InsnKind::CLui => true,
        _ => false,
    }
}

fn imm_i(s: &ProcessorState) -> (r: u64)
    ensures
        r == i_imm(s),
{
    sign_extend(ir_bits(s, 31, 20), 12)
}

fn imm_s(s: &ProcessorState) -> (r: u64)
    ensures
        r == s_imm(s),
{
    sign_extend(ir_bits(s, 31, 25) << 5u64 | ir_bits(s, 11, 7), 12)
}

fn imm_b(s: &ProcessorState) -> (r: u64)
    ensures
        r == b_imm(s),
{
    sign_extend(ir_bits(s, 31, 31) << 12u64 | ir_bits(s, 7, 7) << 11u64 | ir_bits(s, 30, 25) << 5u64 | ir_bits(s, 11, 8) << 1u64, 13)
}

fn imm_u(s: &ProcessorState) -> (r: u64)
    ensures
        r == u_imm(s),
{
    sign_extend(ir_bits(s, 31, 12) << 12u64, 32)
}

fn imm_j(s: &ProcessorState) -> (r: u64)
    ensures
        r == j_imm(s),
{
    sign_extend(ir_bits(s, 31, 31) << 20u64 | ir_bits(s, 19, 12) << 12u64 | ir_bits(s, 20, 20) << 11u64 | ir_bits(s, 30, 21) << 1u64, 21)
}

fn jump_checked(s: &mut ProcessorState, bus: &Bus, target: u64) -> (r: Result<bool, Exception>)
    requires
        old(s).wf(),
    ensures
        final(s).wf(),
        committed(final(s), old(s), bus, bus, r, checked_jump(old(s), bus, target)),
{
    let misaligned = if s.check_extension('c').is_ok() { target & 1 != 0 } else { target & 3 != 0 };
    if misaligned {
        return Err(Exception::FetchMisaligned(target));
    }
    s.set_pc(target);
    Ok(false)
}

fn shift_right_arith(v: u64, sh: u64) -> (r: u64)
    requires
        sh < 64,
    ensures
        r == sra64(v, sh),
{
    if v >> 63u64 == 1 { !((!v) >> sh) } else { v >> sh }
}

fn less_signed(a: u64, b: u64, xlen: XLen) -> (r: bool)
    ensures
        r == signed_lt(a, b, xlen),
{
    (sign_extend(a, xlen.len()) ^ 0x8000_0000_0000_0000u64) < (sign_extend(b, xlen.len()) ^ 0x8000_0000_0000_0000u64)
}

pub fn alu_exec(op: AluOp, a: u64, b: u64, xlen: XLen) -> (r: u64)
    ensures
        r == alu(op, a, b, xlen),
{
    let xm = xlen.mask();
    let sm: u64 = match xlen {
        XLen::X32 => 31,
        XLen::X64 => 63,
    };
    let sh = b & sm;
    proof {
        crate::bits::lemma_and_le(b, sm);
    }
    match op {
        AluOp::Add => a.wrapping_add(b) & xm,
        AluOp::Sub => a.wrapping_sub(b) & xm,
        AluOp::Sll => (a << sh) & xm,
        AluOp::Slt => if less_signed(a, b, xlen) { 1 } else { 0 },
        AluOp::Sltu => if (a & xm) < (b & xm) { 1 } else { 0 },
        AluOp::Xor => (a ^ b) & xm,
        AluOp::Srl => (a & xm) >> sh,
        AluOp::Sra => shift_right_arith(sign_extend(a, xlen.len()), sh) & xm,
        AluOp::Or => (a | b) & xm,
        AluOp::And => (a & b) & xm,
    }
}

pub fn alu32_exec(op: AluOp, a: u64, b: u64) -> (r: u64)
    ensures
        r == alu32(op, a, b),
{
    let sh = b & 31;
    proof {
        crate::bits::lemma_and_le(b, 31);
    }
    let w: u64 = match op {
        AluOp::Sub => a.wrapping_sub(b),
        AluOp::Sll => a << sh,
        AluOp::Srl => (a & 0xffff_ffff) >> sh,
        AluOp::Sra => shift_right_arith(sign_extend(a, 32), sh),
        _ => a.wrapping_add(b),
    };
    sign_extend(w & 0xffff_ffff, 32)
}

fn taken(c: BranchCond, a: u64, b: u64, xlen: XLen) -> (r: bool)
    ensures
        r == branch_taken(c, a, b, xlen),
{
    match c {
        BranchCond::Eq => a == b,
        BranchCond::Ne => a != b,
        BranchCond::Lt => less_signed(a, b, xlen),
        BranchCond::Ge => !less_signed(a, b, xlen),
        BranchCond::Ltu => a < b,
        BranchCond::Geu => a >= b,
    }
}

fn set_rd(s: &mut ProcessorState, bus: &Bus, v: u64) -> (r: Result<bool, Exception>)
    requires
        old(s).wf(),
    ensures
        final(s).wf(),
        committed(final(s), old(s), bus, bus, r, Ok::<Effect, Exception>(write_rd(old(s), bus, v))),
{
    let rd = ir_bits(s, 11, 7);
    s.set_xreg(rd, v);
    let next = s.pc.wrapping_add(4);
    s.set_pc(next);
    Ok(false)
}

/// Executes a base integer instruction.
fn base(kind: InsnKind, s: &mut ProcessorState, ls: &LoadStore, bus: &mut Bus) -> (r: Result<bool, Exception>)
    requires
        old(s).wf(),
        old(bus).wf(),
    ensures
        final(s).wf(),
        final(bus).wf(),
        committed(final(s), old(s), final(bus), old(bus), r, base_spec(kind, old(s), old(bus))),
{
    let x64 = s.config.xlen == XLen::X64;
    let a = s.xreg(ir_bits(s, 19, 15));
    let b = s.xreg(ir_bits(s, 24, 20));
    let m = s.config.xlen.mask();
    match kind {
        InsnKind::Lui => set_rd(s, bus, imm_u(s) & m),
        InsnKind::Auipc => {
            let v = s.pc.wrapping_add(imm_u(s)) & m;
            set_rd(s, bus, v)
        },
        InsnKind::Jal => {
            let target = s.pc.wrapping_add(imm_j(s)) & m;
            let link = s.pc.wrapping_add(4) & m;
            jump_checked(s, bus, target)?;
            let rd = ir_bits(s, 11, 7);
            s.set_xreg(rd, link);
            Ok(false)
        },
        InsnKind::Jalr => {
            let target = a.wrapping_add(imm_i(s)) & !1u64 & m;
            let link = s.pc.wrapping_add(4) & m;
            jump_checked(s, bus, target)?;
            let rd = ir_bits(s, 11, 7);
            s.set_xreg(rd, link);
            Ok(false)
        },
        InsnKind::Branch(c) => if taken(c, a, b, s.config.xlen) {
            let target = s.pc.wrapping_add(imm_b(s)) & m;
            jump_checked(s, bus, target)
        } else {
            let next = s.pc.wrapping_add(4);
            s.set_pc(next);
            Ok(false)
        },
        InsnKind::Load(w, unsigned) => {
            if !x64 && (w == 8 || (w == 4 && unsigned)) {
                return Err(s.illegal_insn());
            }
            if !(w == 1 || w == 2 || w == 4 || w == 8) {
                return Err(s.illegal_insn());
            }
            let d = ls.load(s, bus, a.wrapping_add(imm_i(s)), w)?;
            let v = if unsigned { d } else { sign_extend(d, 8 * w) & m };
            set_rd(s, bus, v)
        },
        InsnKind::Store(w) => {
            if (!x64 && w == 8) || !(w == 1 || w == 2 || w == 4 || w == 8) {
                return Err(s.illegal_insn());
            }
            let va = a.wrapping_add(imm_s(s));
            ls.store(s, bus, va, b, w)?;
            let next = s.pc.wrapping_add(4);
            s.set_pc(next);
            Ok(false)
        },
        InsnKind::OpImm(op) => {
            if !x64 && (op == AluOp::Sll || op == AluOp::Srl || op == AluOp::Sra) && ir_bits(s, 25, 25) == 1 {
                return Err(s.illegal_insn());
            }
            let v = alu_exec(op, a, imm_i(s), s.config.xlen);
            set_rd(s, bus, v)
        },
        InsnKind::Op(op) => {
            let v = alu_exec(op, a, b, s.config.xlen);
            set_rd(s, bus, v)
        },
        InsnKind::OpImm32(op) => {
            if !x64 {
                return Err(s.illegal_insn());
            }
            let v = alu32_exec(op, a, imm_i(s));
            set_rd(s, bus, v)
        },
        InsnKind::Op32(op) => {
            if !x64 {
                return Err(s.illegal_insn());
            }
            let v = alu32_exec(op, a, b);
            set_rd(s, bus, v)
        },
        InsnKind::MulDiv(op) => {
            if s.check_extension('m').is_err() {
                return Err(s.illegal_insn());
            }
            proof {
                crate::bits::lemma_and_le(a, m);
                crate::bits::lemma_and_le(b, m);
            }
            let v = muldiv_exec(op, a & m, b & m, x64);
            set_rd(s, bus, v)
        },
        InsnKind::Amo(_, _) | InsnKind::Lr(_) | InsnKind::Sc(_) => atomic(kind, s, ls, bus),
        InsnKind::FLoad(w) => {
            if w == 8 && s.check_extension('d').is_err() || !(w == 4 || w == 8) {
                return Err(s.illegal_insn());
            }
            let fd = ir_bits(s, 11, 7);
            proof {
                crate::bits::lemma_and_le((s.ir as u64) >> 7u64, crate::bits::low_mask(5));
                assert(1u64 << 5u64 == 32) by (bit_vector);
            }
            c_load_f(s, ls, bus, a.wrapping_add(imm_i(s)), w, fd, 4)
        },
        InsnKind::FStore(w) => {
            if w == 8 && s.check_extension('d').is_err() || !(w == 4 || w == 8) {
                return Err(s.illegal_insn());
            }
            let fs = ir_bits(s, 24, 20);
            proof {
                crate::bits::lemma_and_le((s.ir as u64) >> 20u64, crate::bits::low_mask(5));
                assert(1u64 << 5u64 == 32) by (bit_vector);
            }
            c_store_f(s, ls, bus, a.wrapping_add(imm_s(s)), w, fs, 4)
        },
        InsnKind::MulDiv32(op) => {
            let word = op == MulOp::Mul || op == MulOp::Div || op == MulOp::Divu || op == MulOp::Rem || op == MulOp::Remu;
            if !x64 || s.check_extension('m').is_err() || !word {
                return Err(s.illegal_insn());
            }
            proof {
                crate::bits::lemma_and_le(a, 0xffff_ffff);
                crate::bits::lemma_and_le(b, 0xffff_ffff);
            }
            let v = sign_extend(muldiv_exec(op, a & 0xffff_ffff, b & 0xffff_ffff, false), 32);
            set_rd(s, bus, v)
        },
        _ => Err(s.illegal_insn()),
    }
}

fn amo_value_exec(op: AmoOp, old: u64, b: u64, w: u64) -> (r: u64)
    requires
        w == 4 || w == 8,
    ensures
        r == amo_value(op, old, b, w),
        w == 4 ==> r <= 0xffff_ffff,
{
    let wm: u64 = if w == 4 { 0xffff_ffff } else { 0xffff_ffff_ffff_ffff };
    let lt = (sign_extend(old, 8 * w) ^ 0x8000_0000_0000_0000u64) < (sign_extend(b, 8 * w) ^ 0x8000_0000_0000_0000u64);
    let ltu = (old & wm) < (b & wm);
    let v = match op {
        AmoOp::Swap => b,
        AmoOp::Add => old.wrapping_add(b),
        AmoOp::Xor => old ^ b,
        AmoOp::And => old & b,
        AmoOp::Or => old | b,
        AmoOp::Min => if lt { old } else { b },
        AmoOp::Max => if lt { b } else { old },
        AmoOp::Minu => if ltu { old } else { b },
        AmoOp::Maxu => if ltu { b } else { old },
    };
    proof {
        crate::bits::lemma_and_le(v, wm);
    }
    v & wm
}

fn data_address(s: &ProcessorState, bus: &Bus, va: u64, opt: MmuOpt) -> (r: Result<u64, Exception>)
    requires
        s.wf(),
        bus.wf(),
    ensures
        r == crate::load_store::data_translate(s, bus, va, opt),
{
    translate(bus, s.config.xlen, s.csrs.get(SLOT_SATP), s.csrs.get(SLOT_MSTATUS), s.privilege, va, opt)
}

/// Executes an instruction of the A extension.
fn atomic(kind: InsnKind, s: &mut ProcessorState, ls: &LoadStore, bus: &mut Bus) -> (r: Result<bool, Exception>)
    requires
        old(s).wf(),
        old(bus).wf(),
    ensures
        final(s).wf(),
        final(bus).wf(),
        committed(final(s), old(s), final(bus), old(bus), r, atomic_spec(kind, old(s), old(bus))),
{
    let w: u64 = match kind {
        InsnKind::Amo(_, w) => w,
        InsnKind::Lr(w) => w,
        InsnKind::Sc(w) => w,
        _ => 0,
    };
    if s.check_extension('a').is_err() || !(w == 4 || (w == 8 && s.config.xlen == XLen::X64)) {
        return Err(s.illegal_insn());
    }
    let va = s.xreg(ir_bits(s, 19, 15));
    let b = s.xreg(ir_bits(s, 24, 20));
    let rd = ir_bits(s, 11, 7);
    let m = s.config.xlen.mask();
    match kind {
        InsnKind::Lr(_) => {
            let pa = data_address(s, bus, va, MmuOpt::Load)?;
            let v = match bus.read(pa, w) {
                Ok(v) => v,
                Err(BusError::AccessErr) => return Err(Exception::LoadAccess(va)),
                Err(BusError::Misaligned) => return Err(Exception::LoadMisaligned(va)),
            };
            s.set_xreg(rd, sign_extend(v, 8 * w) & m);
            s.reservation = Some(pa);
        },
        InsnKind::Sc(_) => {
            let pa = data_address(s, bus, va, MmuOpt::Store)?;
            if s.reservation == Some(pa) {
                match bus.write(pa, b, w) {
                    Ok(()) => {},
                    Err(BusError::AccessErr) => return Err(Exception::StoreAccess(va)),
                    Err(BusError::Misaligned) => return Err(Exception::StoreMisaligned(va)),
                }
                s.set_xreg(rd, 0);
            } else {
                s.set_xreg(rd, 1);
            }
            s.reservation = None;
        },
        InsnKind::Amo(op, _) => {
            let old = if w == 4 {
                let f = move |x: u32| -> (r: u32)
                    ensures
                        r as u64 == amo_value(op, x as u64, b, 4),
                    { amo_value_exec(op, x as u64, b, 4) as u32 };
                let v = ls.amo_word(s, bus, va, f)?;
                proof {
                    let pa = crate::load_store::data_translate(old(s), old(bus), va, MmuOpt::Store)->Ok_0;
                    let i = old(bus).region_of(pa, 4)->Some_0;
                    crate::bus::lemma_le_value_bound(old(bus).data@, old(bus).offset(i, pa), 4);
                }
                v
            } else {
                let f = move |x: u64| -> (r: u64)
                    ensures
                        r == amo_value(op, x, b, 8),
                    { amo_value_exec(op, x, b, 8) };
                ls.amo_double_word(s, bus, va, f)?
            };
            s.set_xreg(rd, sign_extend(old, 8 * w) & m);
        },
        _ => {
            return Err(s.illegal_insn());
        },
    }
    let next = s.pc.wrapping_add(4);
    s.set_pc(next);
    Ok(false)
}

} // verus!
