//! What each instruction does, as a function of the hart's state and the bus: the effect it
//! commits, or the exception it raises without committing anything.
use vstd::prelude::*;
use crate::bits::{field, with_field, sext};
use crate::bus::{Bus, valid_width, width_mask};
use crate::config::{XLen, Privilege, PrivilegeLevel};
use crate::csr::{SLOT_MSTATUS, SLOT_MEPC, SLOT_SEPC};
use crate::decode::{InsnKind, AluOp, BranchCond, AmoOp};
use crate::muldiv::{MulOp, muldiv, width_n};
use crate::load_store::{load_spec, store_spec, data_translate, load_error, store_error};
use crate::mmu::MmuOpt;
use crate::state::ProcessorState;
use crate::trap::Exception;

verus! {

/// The state an instruction commits.
pub struct Effect {
    pub xreg: Seq<u64>,
    pub freg: Seq<u64>,
    pub csrs: Seq<u64>,
    pub next_pc: u64,
    pub mem: Seq<u8>,
    pub privilege: Privilege,
    pub reservation: Option<u64>,
    /// Whether the instruction cache must be flushed.
    pub flush: bool,
}

pub open spec fn wrap_add(a: u64, b: u64) -> u64 {
    vstd::wrapping::u64_specs::wrapping_add(a, b)
}

/// Bits `[msb:lsb]` of the current instruction word.
pub open spec fn ir_field(s: &ProcessorState, msb: u64, lsb: u64) -> u64 {
    field(s.ir as u64, msb, lsb)
}

pub open spec fn xm(s: &ProcessorState) -> u64 {
    s.config.xlen.mask_spec()
}

/// Nothing changed but what the caller names.
pub open spec fn keep(s: &ProcessorState, bus: &Bus) -> Effect {
    Effect {
        xreg: s.xreg@,
        freg: s.freg@,
        csrs: s.csrs.regs@,
        next_pc: s.next_pc,
        mem: bus.data@,
        privilege: s.privilege,
        reservation: s.reservation,
        flush: false,
    }
}

/// Nothing changed, and the next instruction follows at `pc + len`.
pub open spec fn advance(s: &ProcessorState, bus: &Bus, len: u64) -> Effect {
    Effect { next_pc: wrap_add(s.pc, len), ..keep(s, bus) }
}

/// The integer registers with `rd` (its low five bits) set to `v`; `x0` stays zero.
pub open spec fn xw(s: &ProcessorState, rd: u64, v: u64) -> Seq<u64> {
    if rd & 0x1f == 0 {
        s.xreg@
    } else {
        s.xreg@.update((rd & 0x1f) as int, v)
    }
}

/// A 32-bit value as a float register of the hart holds it: NaN-boxed when the registers are 64 bits wide.
pub open spec fn nanbox(s: &ProcessorState, v: u64) -> u64 {
    if s.has_extension('d') {
        (v & 0xffff_ffff) | 0xffff_ffff_0000_0000
    } else {
        v & 0xffff_ffff
    }
}

/// The CSR slots with `mstatus.fs` marked dirty.
pub open spec fn fs_dirty(s: &ProcessorState) -> Seq<u64> {
    s.csrs.regs@.update(SLOT_MSTATUS as int, with_field(s.csrs.reg(SLOT_MSTATUS), 14, 13, 3))
}

/// Whether floating-point instructions may run: extension `f` and `mstatus.fs` not off.
pub open spec fn float_ok(s: &ProcessorState) -> bool {
    s.has_extension('f') && field(s.csrs.reg(SLOT_MSTATUS), 14, 13) != 0
}

pub open spec fn rd(s: &ProcessorState) -> u64 { ir_field(s, 11, 7) }
pub open spec fn rs1(s: &ProcessorState) -> u64 { ir_field(s, 19, 15) }
pub open spec fn rs2(s: &ProcessorState) -> u64 { ir_field(s, 6, 2) }
/// The compact register fields of the CL, CS and CB formats, `x8` to `x15`.
pub open spec fn rdp(s: &ProcessorState) -> u64 { (ir_field(s, 4, 2) + 8) as u64 }
pub open spec fn rs1p(s: &ProcessorState) -> u64 { (ir_field(s, 9, 7) + 8) as u64 }

pub open spec fn lwsp_off(s: &ProcessorState) -> u64 {
    ir_field(s, 3, 2) << 6u64 | ir_field(s, 12, 12) << 5u64 | ir_field(s, 6, 4) << 2u64
}
pub open spec fn ldsp_off(s: &ProcessorState) -> u64 {
    ir_field(s, 4, 2) << 6u64 | ir_field(s, 12, 12) << 5u64 | ir_field(s, 6, 5) << 3u64
}
pub open spec fn swsp_off(s: &ProcessorState) -> u64 {
    ir_field(s, 8, 7) << 6u64 | ir_field(s, 12, 9) << 2u64
}
pub open spec fn sdsp_off(s: &ProcessorState) -> u64 {
    ir_field(s, 9, 7) << 6u64 | ir_field(s, 12, 10) << 3u64
}
pub open spec fn lw_off(s: &ProcessorState) -> u64 {
    ir_field(s, 5, 5) << 6u64 | ir_field(s, 12, 10) << 3u64 | ir_field(s, 6, 6) << 2u64
}
pub open spec fn ld_off(s: &ProcessorState) -> u64 {
    ir_field(s, 6, 5) << 6u64 | ir_field(s, 12, 10) << 3u64
}
/// The six-bit immediate of the CI format, unextended.
pub open spec fn ci_imm(s: &ProcessorState) -> u64 {
    ir_field(s, 12, 12) << 5u64 | ir_field(s, 6, 2)
}
pub open spec fn cj_off(s: &ProcessorState) -> u64 {
    sext(ir_field(s, 12, 12) << 11u64 | ir_field(s, 11, 11) << 4u64 | ir_field(s, 10, 9) << 8u64 | ir_field(s, 8, 8)
        << 10u64 | ir_field(s, 7, 7) << 6u64 | ir_field(s, 6, 6) << 7u64 | ir_field(s, 5, 3) << 1u64 | ir_field(s, 2, 2)
        << 5u64, 12)
}
pub open spec fn cb_off(s: &ProcessorState) -> u64 {
    sext(ir_field(s, 12, 12) << 8u64 | ir_field(s, 11, 10) << 3u64 | ir_field(s, 6, 5) << 6u64 | ir_field(s, 4, 3)
        << 1u64 | ir_field(s, 2, 2) << 5u64, 9)
}

/// A jump to `target`: it must be half-word aligned.
pub open spec fn jump_to(s: &ProcessorState, bus: &Bus, target: u64) -> Result<Effect, Exception> {
    if target & 1 != 0 {
        Err(Exception::FetchMisaligned(target))
    } else {
        Ok(Effect { next_pc: target, ..keep(s, bus) })
    }
}

/// A load of `width` bytes at `va` whose value `f` turns into the effect.
pub open spec fn with_load(s: &ProcessorState, bus: &Bus, va: u64, width: u64, f: spec_fn(u64) -> Effect) -> Result<Effect, Exception> {
    match load_spec(s, bus, va, width) {
        Err(e) => Err(e),
        Ok(d) => Ok(f(d)),
    }
}

/// A store of the low `width` bytes of `v` at `va`, then on to `pc + 2`.
pub open spec fn c_store(s: &ProcessorState, bus: &Bus, va: u64, v: u64, width: u64) -> Result<Effect, Exception> {
    match store_spec(s, bus, va, v, width) {
        Err(e) => Err(e),
        Ok(m) => Ok(Effect { mem: m, ..advance(s, bus, 2) }),
    }
}

pub open spec fn c_lwsp_spec(s: &ProcessorState, bus: &Bus) -> Result<Effect, Exception> {
    if rd(s) == 0 {
        Err(s.illegal())
    } else {
        with_load(s, bus, wrap_add(s.xreg_spec(2), lwsp_off(s)), 4,
            |d: u64| Effect { xreg: xw(s, rd(s), sext(d, 32) & xm(s)), ..advance(s, bus, 2) })
    }
}

pub open spec fn c_ldsp_spec(s: &ProcessorState, bus: &Bus) -> Result<Effect, Exception> {
    if rd(s) == 0 {
        Err(s.illegal())
    } else {
        with_load(s, bus, wrap_add(s.xreg_spec(2), ldsp_off(s)), 8,
            |d: u64| Effect { xreg: xw(s, rd(s), d & xm(s)), ..advance(s, bus, 2) })
    }
}

/// A float load of `width` bytes at `va` into float register `fd`, by an instruction of `len` bytes.
pub open spec fn f_load(s: &ProcessorState, bus: &Bus, va: u64, width: u64, fd: u64, len: u64) -> Result<Effect, Exception> {
    if !float_ok(s) {
        Err(s.illegal())
    } else {
        with_load(s, bus, va, width, |d: u64| Effect {
            freg: s.freg@.update(fd as int, if width == 4 { nanbox(s, d) } else { d }),
            csrs: fs_dirty(s),
            ..advance(s, bus, len)
        })
    }
}

/// A float store of `width` bytes of float register `fs` at `va`, by an instruction of `len` bytes.
pub open spec fn f_store(s: &ProcessorState, bus: &Bus, va: u64, width: u64, fs: u64, len: u64) -> Result<Effect, Exception> {
    if !float_ok(s) {
        Err(s.illegal())
    } else {
        match store_spec(s, bus, va, s.freg@[fs as int], width) {
            Err(e) => Err(e),
            Ok(m) => Ok(Effect { mem: m, ..advance(s, bus, len) }),
        }
    }
}

pub open spec fn c_jal_spec(s: &ProcessorState, bus: &Bus) -> Result<Effect, Exception> {
    match jump_to(s, bus, wrap_add(s.pc, cj_off(s)) & xm(s)) {
        Err(e) => Err(e),
        Ok(e) => Ok(Effect { xreg: xw(s, 1, wrap_add(s.pc, 2) & xm(s)), ..e }),
    }
}

pub open spec fn c_addiw_spec(s: &ProcessorState, bus: &Bus) -> Result<Effect, Exception> {
    if rd(s) == 0 {
        Err(s.illegal())
    } else {
        Ok(Effect {
            xreg: xw(s, rd(s), sext(wrap_add(s.xreg_spec(rd(s)), sext(ci_imm(s), 6)) & 0xffff_ffff, 32)),
            ..advance(s, bus, 2)
        })
    }
}

pub open spec fn c_jr_spec(s: &ProcessorState, bus: &Bus, link: bool) -> Result<Effect, Exception> {
    if rd(s) == 0 {
        Err(s.illegal())
    } else {
        match jump_to(s, bus, s.xreg_spec(rd(s))) {
            Err(e) => Err(e),
            Ok(e) => if link {
                Ok(Effect { xreg: xw(s, 1, wrap_add(s.pc, 2) & xm(s)), ..e })
            } else {
                Ok(e)
            },
        }
    }
}

pub open spec fn c_branch_spec(s: &ProcessorState, bus: &Bus, on_zero: bool) -> Result<Effect, Exception> {
    let v = s.xreg_spec(rs1p(s));
    if (v == 0) == on_zero {
        jump_to(s, bus, wrap_add(s.pc, cb_off(s)) & xm(s))
    } else {
        Ok(advance(s, bus, 2))
    }
}

pub open spec fn c_li_spec(s: &ProcessorState, bus: &Bus) -> Result<Effect, Exception> {
    if rd(s) == 0 {
        Err(s.illegal())
    } else {
        Ok(Effect { xreg: xw(s, rd(s), sext(ci_imm(s), 6) & xm(s)), ..advance(s, bus, 2) })
    }
}

pub open spec fn c_lui_spec(s: &ProcessorState, bus: &Bus) -> Result<Effect, Exception> {
    if rd(s) == 0 || rd(s) == 2 || ci_imm(s) == 0 {
        Err(s.illegal())
    } else {
        Ok(Effect { xreg: xw(s, rd(s), sext(ci_imm(s) << 12u64, 18) & xm(s)), ..advance(s, bus, 2) })
    }
}

pub open spec fn ecall_exception(p: Privilege) -> Exception {
    match p {
        Privilege::U => Exception::UEcall,
        Privilege::S => Exception::SEcall,
        Privilege::M => Exception::MEcall,
    }
}

/// The mode that a hart with profile `level` enters when asked for `p`.
pub open spec fn clamp_privilege(level: PrivilegeLevel, p: Privilege) -> Privilege {
    match level {
        PrivilegeLevel::M => Privilege::M,
        PrivilegeLevel::MU => if p != Privilege::M { Privilege::U } else { Privilege::M },
        PrivilegeLevel::MSU => p,
    }
}

/// The privilege that a two-bit `xpp` value names (the reserved value as U).
pub open spec fn privilege_of(v: u64) -> Privilege {
    if v == 3 {
        Privilege::M
    } else if v == 1 {
        Privilege::S
    } else {
        Privilege::U
    }
}

pub open spec fn mret_spec(s: &ProcessorState, bus: &Bus) -> Result<Effect, Exception> {
    if s.privilege != Privilege::M {
        Err(s.illegal())
    } else {
        let ms = s.csrs.reg(SLOT_MSTATUS);
        let p = clamp_privilege(s.config.privilege_level, privilege_of(field(ms, 12, 11)));
        let least: u64 = if s.config.privilege_level == PrivilegeLevel::M { 3 } else { 0 };
        let ms1 = with_field(with_field(with_field(ms, 3, 3, field(ms, 7, 7)), 7, 7, 1), 12, 11, least);
        let ms2 = if p != Privilege::M { with_field(ms1, 17, 17, 0) } else { ms1 };
        Ok(Effect {
            csrs: s.csrs.regs@.update(SLOT_MSTATUS as int, ms2),
            next_pc: s.csrs.reg(SLOT_MEPC) & xm(s),
            privilege: p,
            ..keep(s, bus)
        })
    }
}

pub open spec fn sret_spec(s: &ProcessorState, bus: &Bus) -> Result<Effect, Exception> {
    let ms = s.csrs.reg(SLOT_MSTATUS);
    if s.config.privilege_level != PrivilegeLevel::MSU || s.privilege == Privilege::U || (s.privilege
        == Privilege::S && field(ms, 22, 22) == 1) {
        Err(s.illegal())
    } else {
        let p = if field(ms, 8, 8) == 1 { Privilege::S } else { Privilege::U };
        let ms1 = with_field(with_field(with_field(with_field(ms, 1, 1, field(ms, 5, 5)), 5, 5, 1), 8, 8, 0), 17, 17, 0);
        Ok(Effect {
            csrs: s.csrs.regs@.update(SLOT_MSTATUS as int, ms1),
            next_pc: s.csrs.reg(SLOT_SEPC) & xm(s),
            privilege: p,
            ..keep(s, bus)
        })
    }
}

pub open spec fn wfi_spec(s: &ProcessorState, bus: &Bus) -> Result<Effect, Exception> {
    if s.privilege != Privilege::M && field(s.csrs.reg(SLOT_MSTATUS), 21, 21) == 1 {
        Err(s.illegal())
    } else {
        Ok(advance(s, bus, 4))
    }
}

pub open spec fn sfence_vma_spec(s: &ProcessorState, bus: &Bus) -> Result<Effect, Exception> {
    if s.privilege == Privilege::U || (s.privilege == Privilege::S && field(s.csrs.reg(SLOT_MSTATUS), 20, 20) == 1) {
        Err(s.illegal())
    } else {
        Ok(Effect { flush: true, ..advance(s, bus, 4) })
    }
}

/// The CSR number of a CSR instruction.
pub open spec fn csr_id(s: &ProcessorState) -> u64 {
    ir_field(s, 31, 20)
}

/// A CSR instruction: `op` 1 writes, 2 sets bits, 3 clears bits; `v` is the source value.
/// A write happens unless a set or clear names `x0` or a zero immediate; a read happens unless a
/// write names `x0` as destination.
pub open spec fn csr_op_spec(s: &ProcessorState, bus: &Bus, op: u64, v: u64) -> Result<Effect, Exception> {
    let id = csr_id(s);
    let reads = op != 1 || rd(s) != 0;
    let writes = op == 1 || rs1(s) != 0;
    let old: Result<u64, Exception> = if reads { s.csr_spec(id) } else { Ok(0) };
    match old {
        Err(e) => Err(e),
        Ok(o) => {
            let nv = if op == 1 { v } else if op == 2 { o | v } else { o & !v };
            if writes && !s.csr_writable(id) {
                Err(s.illegal())
            } else {
                Ok(Effect {
                    xreg: xw(s, rd(s), o),
                    csrs: if writes { s.csrs.write_spec(id & 0xfff, nv) } else { s.csrs.regs@ },
                    flush: writes && id & 0xfff == 0x180,
                    ..advance(s, bus, 4)
                })
            }
        },
    }
}

/// Whether `kind` is an instruction of the compressed (C) extension.
pub open spec fn is_compressed(kind: InsnKind) -> bool {
    match kind {
        InsnKind::CLwsp | InsnKind::CLdspFlwsp | InsnKind::CFldsp | InsnKind::CSwsp | InsnKind::CSdspFswsp
        | InsnKind::CFsdsp | InsnKind::CLw | InsnKind::CLdFlw | InsnKind::CFld | InsnKind::CSw | InsnKind::CSdFsw
        | InsnKind::CFsd | InsnKind::CJ | InsnKind::CJalAddiw | InsnKind::CJr | InsnKind::CJalr | InsnKind::CBeqz
        | InsnKind::CBnez | InsnKind::CLi | InsnKind::CLui => true,
        _ => false,
    }
}

pub open spec fn wrap_sub(a: u64, b: u64) -> u64 {
    vstd::wrapping::u64_specs::wrapping_sub(a, b)
}

pub open spec fn rs2_field(s: &ProcessorState) -> u64 { ir_field(s, 24, 20) }

pub open spec fn i_imm(s: &ProcessorState) -> u64 {
    sext(ir_field(s, 31, 20), 12)
}
pub open spec fn s_imm(s: &ProcessorState) -> u64 {
    sext(ir_field(s, 31, 25) << 5u64 | ir_field(s, 11, 7), 12)
}
pub open spec fn b_imm(s: &ProcessorState) -> u64 {
    sext(ir_field(s, 31, 31) << 12u64 | ir_field(s, 7, 7) << 11u64 | ir_field(s, 30, 25) << 5u64 | ir_field(s, 11, 8) << 1u64, 13)
}
pub open spec fn u_imm(s: &ProcessorState) -> u64 {
    sext(ir_field(s, 31, 12) << 12u64, 32)
}
pub open spec fn j_imm(s: &ProcessorState) -> u64 {
    sext(ir_field(s, 31, 31) << 20u64 | ir_field(s, 19, 12) << 12u64 | ir_field(s, 20, 20) << 11u64 | ir_field(s, 30, 21) << 1u64, 21)
}

/// A jump target must be half-word aligned with the C extension, word aligned without it.
pub open spec fn checked_jump(s: &ProcessorState, bus: &Bus, target: u64) -> Result<Effect, Exception> {
    let misaligned = if s.has_extension('c') { target & 1 != 0 } else { target & 3 != 0 };
    if misaligned {
        Err(Exception::FetchMisaligned(target))
    } else {
        Ok(Effect { next_pc: target, ..keep(s, bus) })
    }
}

/// The highest shift amount at the register width.
pub open spec fn shamt_mask(xlen: XLen) -> u64 {
    match xlen {
        XLen::X32 => 31,
        XLen::X64 => 63,
    }
}

/// `v` shifted right by `sh`, copying its top bit.
pub open spec fn sra64(v: u64, sh: u64) -> u64 {
    if v >> 63u64 == 1 { !((!v) >> sh) } else { v >> sh }
}

/// `a < b` as signed numbers of the register width.
pub open spec fn signed_lt(a: u64, b: u64, xlen: XLen) -> bool {
    (sext(a, xlen.len_spec()) ^ 0x8000_0000_0000_0000u64) < (sext(b, xlen.len_spec()) ^ 0x8000_0000_0000_0000u64)
}

/// The ALU at the register width; operands and result are zero-extended register values.
pub open spec fn alu(op: AluOp, a: u64, b: u64, xlen: XLen) -> u64 {
    let xm = xlen.mask_spec();
    let sh = b & shamt_mask(xlen);
    match op {
        AluOp::Add => wrap_add(a, b) & xm,
        AluOp::Sub => wrap_sub(a, b) & xm,
        AluOp::Sll => (a << sh) & xm,
        AluOp::Slt => if signed_lt(a, b, xlen) { 1 } else { 0 },
        AluOp::Sltu => if (a & xm) < (b & xm) { 1 } else { 0 },
        AluOp::Xor => (a ^ b) & xm,
        AluOp::Srl => (a & xm) >> sh,
        AluOp::Sra => sra64(sext(a, xlen.len_spec()), sh) & xm,
        AluOp::Or => (a | b) & xm,
        AluOp::And => (a & b) & xm,
    }
}

/// The word operations of RV64: computed on the low 32 bits, sign-extended to 64.
pub open spec fn alu32(op: AluOp, a: u64, b: u64) -> u64 {
    let sh = b & 31;
    let w: u64 = match op {
        AluOp::Sub => wrap_sub(a, b),
        AluOp::Sll => a << sh,
        AluOp::Srl => (a & 0xffff_ffff) >> sh,
        AluOp::Sra => sra64(sext(a, 32), sh),
        _ => wrap_add(a, b),
    };
    sext(w & 0xffff_ffff, 32)
}

pub open spec fn branch_taken(cond: BranchCond, a: u64, b: u64, xlen: XLen) -> bool {
    match cond {
        BranchCond::Eq => a == b,
        BranchCond::Ne => a != b,
        BranchCond::Lt => signed_lt(a, b, xlen),
        BranchCond::Ge => !signed_lt(a, b, xlen),
        BranchCond::Ltu => a < b,
        BranchCond::Geu => a >= b,
    }
}

/// Writes `v` to `rd` and moves on four bytes.
pub open spec fn write_rd(s: &ProcessorState, bus: &Bus, v: u64) -> Effect {
    Effect { xreg: xw(s, rd(s), v), ..advance(s, bus, 4) }
}

/// The operations that RV64 has in a word form.
pub open spec fn word_muldiv(op: MulOp) -> bool {
    op == MulOp::Mul || op == MulOp::Div || op == MulOp::Divu || op == MulOp::Rem || op == MulOp::Remu
}

/// What an atomic operation stores, from the value `old` in memory and the operand `b`, at a
/// width of `w` bytes.
pub open spec fn amo_value(op: AmoOp, old: u64, b: u64, w: u64) -> u64 {
    let bits = (8 * w) as u64;
    let lt = (sext(old, bits) ^ 0x8000_0000_0000_0000u64) < (sext(b, bits) ^ 0x8000_0000_0000_0000u64);
    let ltu = (old & width_mask(w)) < (b & width_mask(w));
    let v = match op {
        AmoOp::Swap => b,
        AmoOp::Add => wrap_add(old, b),
        AmoOp::Xor => old ^ b,
        AmoOp::And => old & b,
        AmoOp::Or => old | b,
        AmoOp::Min => if lt { old } else { b },
        AmoOp::Max => if lt { b } else { old },
        AmoOp::Minu => if ltu { old } else { b },
        AmoOp::Maxu => if ltu { b } else { old },
    };
    v & width_mask(w)
}

/// What an instruction of the A extension does: it needs extension `a`, a width of four bytes, or
/// eight on RV64. The address is `rs1`; loads sign-extend words.
pub open spec fn atomic_spec(kind: InsnKind, s: &ProcessorState, bus: &Bus) -> Result<Effect, Exception> {
    let w: u64 = match kind {
        InsnKind::Amo(_, w) => w,
        InsnKind::Lr(w) => w,
        InsnKind::Sc(w) => w,
        _ => 0,
    };
    let va = s.xreg_spec(rs1(s));
    let b = s.xreg_spec(rs2_field(s));
    let loaded = |v: u64| sext(v, (8 * w) as u64) & xm(s);
    if !s.has_extension('a') || !(w == 4 || (w == 8 && s.config.xlen == XLen::X64)) {
        Err(s.illegal())
    } else {
        match kind {
            InsnKind::Lr(_) => match data_translate(s, bus, va, MmuOpt::Load) {
                Err(e) => Err(e),
                Ok(pa) => match bus.read_spec(pa, w) {
                    Err(e) => Err(load_error(e, va)),
                    Ok(v) => Ok(Effect { xreg: xw(s, rd(s), loaded(v)), reservation: Some(pa), ..advance(s, bus, 4) }),
                },
            },
            InsnKind::Sc(_) => match data_translate(s, bus, va, MmuOpt::Store) {
                Err(e) => Err(e),
                Ok(pa) => if s.reservation == Some(pa) {
                    match bus.write_spec(pa, b, w) {
                        Err(e) => Err(store_error(e, va)),
                        Ok(mem) => Ok(Effect { xreg: xw(s, rd(s), 0), mem, reservation: None, ..advance(s, bus, 4) }),
                    }
                } else {
                    Ok(Effect { xreg: xw(s, rd(s), 1), reservation: None, ..advance(s, bus, 4) })
                },
            },
            InsnKind::Amo(op, _) => match data_translate(s, bus, va, MmuOpt::Store) {
                Err(e) => Err(e),
                Ok(pa) => match bus.read_spec(pa, w) {
                    Err(e) => Err(store_error(e, va)),
                    Ok(old) => Ok(Effect {
                        xreg: xw(s, rd(s), loaded(old)),
                        mem: bus.write_spec(pa, amo_value(op, old, b, w), w)->Ok_0,
                        ..advance(s, bus, 4)
                    }),
                },
            },
            _ => Err(s.illegal()),
        }
    }
}

/// What a base (32-bit encoded) integer instruction does.
pub open spec fn base_spec(kind: InsnKind, s: &ProcessorState, bus: &Bus) -> Result<Effect, Exception> {
    let x64 = s.config.xlen == XLen::X64;
    let a = s.xreg_spec(rs1(s));
    let b = s.xreg_spec(rs2_field(s));
    let m = xm(s);
    match kind {
        InsnKind::Lui => Ok(write_rd(s, bus, u_imm(s) & m)),
        InsnKind::Auipc => Ok(write_rd(s, bus, wrap_add(s.pc, u_imm(s)) & m)),
        InsnKind::Jal => match checked_jump(s, bus, wrap_add(s.pc, j_imm(s)) & m) {
            Err(e) => Err(e),
            Ok(e) => Ok(Effect { xreg: xw(s, rd(s), wrap_add(s.pc, 4) & m), ..e }),
        },
        InsnKind::Jalr => match checked_jump(s, bus, wrap_add(a, i_imm(s)) & !1u64 & m) {
            Err(e) => Err(e),
            Ok(e) => Ok(Effect { xreg: xw(s, rd(s), wrap_add(s.pc, 4) & m), ..e }),
        },
        InsnKind::Branch(c) => if branch_taken(c, a, b, s.config.xlen) {
            checked_jump(s, bus, wrap_add(s.pc, b_imm(s)) & m)
        } else {
            Ok(advance(s, bus, 4))
        },
        InsnKind::Load(w, unsigned) => if (!x64 && (w == 8 || (w == 4 && unsigned))) || !valid_width(w) {
            Err(s.illegal())
        } else {
            with_load(s, bus, wrap_add(a, i_imm(s)), w,
                |d: u64| write_rd(s, bus, if unsigned { d } else { sext(d, (8 * w) as u64) & m }))
        },
        InsnKind::Store(w) => if (!x64 && w == 8) || !valid_width(w) {
            Err(s.illegal())
        } else {
            match store_spec(s, bus, wrap_add(a, s_imm(s)), b, w) {
                Err(e) => Err(e),
                Ok(mem) => Ok(Effect { mem, ..advance(s, bus, 4) }),
            }
        },
        InsnKind::OpImm(op) => if !x64 && (op == AluOp::Sll || op == AluOp::Srl || op == AluOp::Sra) && ir_field(s, 25, 25) == 1 {
            Err(s.illegal())
        } else {
            Ok(write_rd(s, bus, alu(op, a, i_imm(s), s.config.xlen)))
        },
        InsnKind::Op(op) => Ok(write_rd(s, bus, alu(op, a, b, s.config.xlen))),
        InsnKind::OpImm32(op) => if !x64 { Err(s.illegal()) } else { Ok(write_rd(s, bus, alu32(op, a, i_imm(s)))) },
        InsnKind::Op32(op) => if !x64 { Err(s.illegal()) } else { Ok(write_rd(s, bus, alu32(op, a, b))) },
        InsnKind::MulDiv(op) => if !s.has_extension('m') {
            Err(s.illegal())
        } else {
            Ok(write_rd(s, bus, muldiv(op, (a & m) as int, (b & m) as int, width_n(x64)) as u64))
        },
        InsnKind::MulDiv32(op) => if !x64 || !s.has_extension('m') || !word_muldiv(op) {
            Err(s.illegal())
        } else {
            Ok(write_rd(s, bus, sext(muldiv(op, (a & 0xffff_ffff) as int, (b & 0xffff_ffff) as int, width_n(false)) as u64, 32)))
        },
        InsnKind::Amo(_, _) | InsnKind::Lr(_) | InsnKind::Sc(_) => atomic_spec(kind, s, bus),
        InsnKind::FLoad(w) => if w == 8 && !s.has_extension('d') || !(w == 4 || w == 8) {
            Err(s.illegal())
        } else {
            f_load(s, bus, wrap_add(a, i_imm(s)), w, rd(s), 4)
        },
        InsnKind::FStore(w) => if w == 8 && !s.has_extension('d') || !(w == 4 || w == 8) {
            Err(s.illegal())
        } else {
            f_store(s, bus, wrap_add(a, s_imm(s)), w, rs2_field(s), 4)
        },
        _ => Err(s.illegal()),
    }
}

/// What instruction `kind`, whose word is the hart's `ir`, does.
pub open spec fn insn_spec(kind: InsnKind, s: &ProcessorState, bus: &Bus) -> Result<Effect, Exception> {
    let x64 = s.config.xlen == XLen::X64;
    let is_c = is_compressed(kind);
    let needs_d = kind == InsnKind::CFldsp || kind == InsnKind::CFsdsp || kind == InsnKind::CFld || kind == InsnKind::CFsd;
    if is_c && !s.has_extension('c') {
        Err(s.illegal())
    } else if needs_d && !s.has_extension('d') {
        Err(s.illegal())
    } else {
        let sp = s.xreg_spec(2);
        let b = s.xreg_spec(rs1p(s));
        match kind {
            InsnKind::CLwsp => c_lwsp_spec(s, bus),
            InsnKind::CLdspFlwsp => if x64 {
                c_ldsp_spec(s, bus)
            } else {
                f_load(s, bus, wrap_add(sp, lwsp_off(s)), 4, rd(s), 2)
            },
            InsnKind::CFldsp => f_load(s, bus, wrap_add(sp, ldsp_off(s)), 8, rd(s), 2),
            InsnKind::CSwsp => c_store(s, bus, wrap_add(sp, swsp_off(s)), s.xreg_spec(rs2(s)), 4),
            InsnKind::CSdspFswsp => if x64 {
                c_store(s, bus, wrap_add(sp, sdsp_off(s)), s.xreg_spec(rs2(s)), 8)
            } else {
                f_store(s, bus, wrap_add(sp, swsp_off(s)), 4, rs2(s), 2)
            },
            InsnKind::CFsdsp => f_store(s, bus, wrap_add(sp, sdsp_off(s)), 8, rs2(s), 2),
            InsnKind::CLw => with_load(s, bus, wrap_add(b, lw_off(s)), 4,
                |d: u64| Effect { xreg: xw(s, rdp(s), sext(d, 32) & xm(s)), ..advance(s, bus, 2) }),
            InsnKind::CLdFlw => if x64 {
                with_load(s, bus, wrap_add(b, ld_off(s)), 8,
                    |d: u64| Effect { xreg: xw(s, rdp(s), d & xm(s)), ..advance(s, bus, 2) })
            } else {
                f_load(s, bus, wrap_add(b, lw_off(s)), 4, rdp(s), 2)
            },
            InsnKind::CFld => f_load(s, bus, wrap_add(b, ld_off(s)), 8, rdp(s), 2),
            InsnKind::CSw => c_store(s, bus, wrap_add(b, lw_off(s)), s.xreg_spec(rdp(s)), 4),
            InsnKind::CSdFsw => if x64 {
                c_store(s, bus, wrap_add(b, ld_off(s)), s.xreg_spec(rdp(s)), 8)
            } else {
                f_store(s, bus, wrap_add(b, lw_off(s)), 4, rdp(s), 2)
            },
            InsnKind::CFsd => f_store(s, bus, wrap_add(b, ld_off(s)), 8, rdp(s), 2),
            InsnKind::CJ => jump_to(s, bus, wrap_add(s.pc, cj_off(s)) & xm(s)),
            InsnKind::CJalAddiw => if x64 { c_addiw_spec(s, bus) } else { c_jal_spec(s, bus) },
            InsnKind::CJr => c_jr_spec(s, bus, false),
            InsnKind::CJalr => c_jr_spec(s, bus, true),
            InsnKind::CBeqz => c_branch_spec(s, bus, true),
            InsnKind::CBnez => c_branch_spec(s, bus, false),
            InsnKind::CLi => c_li_spec(s, bus),
            InsnKind::CLui => c_lui_spec(s, bus),
            InsnKind::Ecall => Err(ecall_exception(s.privilege)),
            InsnKind::Ebreak => Err(Exception::Breakpoint(s.pc)),
            InsnKind::Mret => mret_spec(s, bus),
            InsnKind::Sret => sret_spec(s, bus),
            InsnKind::Wfi => wfi_spec(s, bus),
            InsnKind::SfenceVma => sfence_vma_spec(s, bus),
            InsnKind::Fence => Ok(advance(s, bus, 4)),
            InsnKind::FenceI => Ok(Effect { flush: true, ..advance(s, bus, 4) }),
            InsnKind::Csrrw => csr_op_spec(s, bus, 1, s.xreg_spec(rs1(s))),
            InsnKind::Csrrs => csr_op_spec(s, bus, 2, s.xreg_spec(rs1(s))),
            InsnKind::Csrrc => csr_op_spec(s, bus, 3, s.xreg_spec(rs1(s))),
            InsnKind::Csrrwi => csr_op_spec(s, bus, 1, rs1(s)),
            InsnKind::Csrrsi => csr_op_spec(s, bus, 2, rs1(s)),
            InsnKind::Csrrci => csr_op_spec(s, bus, 3, rs1(s)),
            _ => base_spec(kind, s, bus),
        }
    }
}

} // verus!
