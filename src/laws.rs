//! Properties of the simulator that relate several of its functions, each proved from their
//! specifications.
use vstd::prelude::*;
use crate::bus::Bus;
use crate::config::{XLen, Privilege, PrivilegeLevel};
use crate::csr::{SLOT_MEDELEG, SLOT_MIDELEG};
use crate::decode::InsnKind;
use crate::processor::{trap_delivered, trap_code, is_interrupt};
use crate::semantics::{Effect, insn_spec, wrap_add, xw};
use crate::load_store::{load_spec, store_spec};
use crate::state::ProcessorState;
use crate::trap::{Exception, Trap};
use crate::decode::{Instruction, standard_patterns};
use crate::fetcher::{fetch_translate, cold_fetch, coherent, fetch_outcome};
use crate::processor::{Processor, stepped, executed, at_insn, pending_interrupt};

verus! {

/// Whatever an instruction commits, `x0` still reads zero.
pub proof fn lemma_x0_stays_zero(kind: InsnKind, s: &ProcessorState, bus: &Bus)
    requires
        s.wf(),
    ensures
        insn_spec(kind, s, bus) matches Ok(e) ==> e.xreg[0] == 0 && e.xreg.len() == 32,
{
    assert forall|rd: u64, v: u64| (#[trigger] xw(s, rd, v)).len() == 32 && xw(s, rd, v)[0] == 0 by {
        assert(rd & 0x1f < 32) by (bit_vector);
        if rd & 0x1f != 0 {
            assert(xw(s, rd, v)[0] == s.xreg@[0]);
        }
    }
    match kind {
        InsnKind::CLwsp => {},
        InsnKind::CLdspFlwsp => {},
        InsnKind::CFldsp => {},
        InsnKind::CSwsp => {},
        InsnKind::CSdspFswsp => {},
        InsnKind::CFsdsp => {},
        InsnKind::CLw => {},
        InsnKind::CLdFlw => {},
        InsnKind::CFld => {},
        InsnKind::CSw => {},
        InsnKind::CSdFsw => {},
        InsnKind::CFsd => {},
        InsnKind::CJ => {},
        InsnKind::CJalAddiw => {},
        InsnKind::CJr => {},
        InsnKind::CJalr => {},
        InsnKind::CBeqz => {},
        InsnKind::CBnez => {},
        InsnKind::CLi => {},
        InsnKind::CLui => {},
        InsnKind::Ecall => {},
        InsnKind::Ebreak => {},
        InsnKind::Mret => {},
        InsnKind::Sret => {},
        InsnKind::Wfi => {},
        InsnKind::SfenceVma => {},
        InsnKind::Fence => {},
        InsnKind::FenceI => {},
        InsnKind::Csrrw => {},
        InsnKind::Csrrs => {},
        InsnKind::Csrrc => {},
        InsnKind::Csrrwi => {},
        InsnKind::Csrrsi => {},
        InsnKind::Csrrci => {},
        InsnKind::Lui => {},
        InsnKind::Auipc => {},
        InsnKind::Jal => {},
        InsnKind::Jalr => {},
        InsnKind::Branch(_) => {},
        InsnKind::Load(_, _) => {},
        InsnKind::Store(_) => {},
        InsnKind::OpImm(_) => {},
        InsnKind::Op(_) => {},
        InsnKind::OpImm32(_) => {},
        InsnKind::Op32(_) => {},
        InsnKind::MulDiv(_) => {},
        InsnKind::MulDiv32(_) => {},
        InsnKind::Amo(_, _) => {},
        InsnKind::Lr(_) => {},
        InsnKind::Sc(_) => {},
        InsnKind::FLoad(_) => {},
        InsnKind::FStore(_) => {},
    }
}

/// The instructions that never change the flow of control: for them the next instruction
/// follows directly.
pub open spec fn straight_line(kind: InsnKind, xlen: XLen) -> bool {
    match kind {
        InsnKind::CJ | InsnKind::CJr | InsnKind::CJalr | InsnKind::CBeqz | InsnKind::CBnez | InsnKind::Ecall
        | InsnKind::Ebreak | InsnKind::Mret | InsnKind::Sret | InsnKind::Jal | InsnKind::Jalr | InsnKind::Branch(_) => false,
        InsnKind::CJalAddiw => xlen == XLen::X64,
        _ => true,
    }
}

/// The size in bytes of an instruction of `kind`.
pub open spec fn insn_size(kind: InsnKind) -> u64 {
    if crate::semantics::is_compressed(kind) { 2 } else { 4 }
}

/// A straight-line instruction at `pc` of size `s` leaves `next_pc == pc + s`.
pub proof fn lemma_straight_line_advances(kind: InsnKind, s: &ProcessorState, bus: &Bus)
    requires
        s.wf(),
        straight_line(kind, s.config.xlen),
    ensures
        insn_spec(kind, s, bus) matches Ok(e) ==> e.next_pc == wrap_add(s.pc, insn_size(kind)),
{
}

/// Re-running a faulting instruction from the same architectural state (registers, CSRs,
/// privilege, memory; `next_pc` and the retired count aside) raises the same exception: an
/// instruction that traps commits nothing, and what it raises depends on that state alone.
#[verifier::rlimit(50)]
pub proof fn lemma_trap_idempotent(kind: InsnKind, s: &ProcessorState, bus: &Bus, next_pc: u64)
    requires
        s.wf(),
        insn_spec(kind, s, bus) is Err,
    ensures
        insn_spec(kind, &ProcessorState { next_pc, ..*s }, bus) == insn_spec(kind, s, bus),
{
    let s2 = ProcessorState { next_pc, ..*s };
    assert forall|va: u64, w: u64| #[trigger] load_spec(&s2, bus, va, w) == load_spec(s, bus, va, w) by {}
    assert forall|va: u64, v: u64, w: u64| #[trigger] store_spec(&s2, bus, va, v, w) == store_spec(s, bus, va, v, w) by {}
    assert forall|id: u64| #[trigger] s2.csr_spec(id) == s.csr_spec(id) by {}
    assert forall|id: u64| #[trigger] s2.csr_writable(id) == s.csr_writable(id) by {}
    assert forall|r: u64| #[trigger] s2.xreg_spec(r) == s.xreg_spec(r) by {}
    match kind {
        InsnKind::CLwsp => {},
        InsnKind::CLdspFlwsp => {},
        InsnKind::CFldsp => {},
        InsnKind::CSwsp => {},
        InsnKind::CSdspFswsp => {},
        InsnKind::CFsdsp => {},
        InsnKind::CLw => {},
        InsnKind::CLdFlw => {},
        InsnKind::CFld => {},
        InsnKind::CSw => {},
        InsnKind::CSdFsw => {},
        InsnKind::CFsd => {},
        InsnKind::CJ => {},
        InsnKind::CJalAddiw => {},
        InsnKind::CJr => {},
        InsnKind::CJalr => {},
        InsnKind::CBeqz => {},
        InsnKind::CBnez => {},
        InsnKind::CLi => {},
        InsnKind::CLui => {},
        InsnKind::Ecall => {},
        InsnKind::Ebreak => {},
        InsnKind::Mret => {},
        InsnKind::Sret => {},
        InsnKind::Wfi => {},
        InsnKind::SfenceVma => {},
        InsnKind::Fence => {},
        InsnKind::FenceI => {},
        InsnKind::Csrrw => {},
        InsnKind::Csrrs => {},
        InsnKind::Csrrc => {},
        InsnKind::Csrrwi => {},
        InsnKind::Csrrsi => {},
        InsnKind::Csrrci => {},
        InsnKind::Lui => {},
        InsnKind::Auipc => {},
        InsnKind::Jal => {},
        InsnKind::Jalr => {},
        InsnKind::Branch(_) => {},
        InsnKind::Load(_, _) => {},
        InsnKind::Store(_) => {},
        InsnKind::OpImm(_) => {},
        InsnKind::Op(_) => {},
        InsnKind::OpImm32(_) => {},
        InsnKind::Op32(_) => {},
        InsnKind::MulDiv(_) => {},
        InsnKind::MulDiv32(_) => {},
        InsnKind::Amo(_, _) => {},
        InsnKind::Lr(_) => {},
        InsnKind::Sc(_) => {},
        InsnKind::FLoad(_) => {},
        InsnKind::FStore(_) => {},
    }
}

/// A trap taken below M whose bit is set in the delegation register goes to S; every other trap
/// goes to M.
pub proof fn lemma_delegation(new: &ProcessorState, old: &ProcessorState, t: Trap)
    requires
        old.wf(),
        trap_delivered(new, old, t),
    ensures
        ({
            let deleg = if is_interrupt(t) { old.csrs.reg(SLOT_MIDELEG) } else { old.csrs.reg(SLOT_MEDELEG) };
            if old.privilege != Privilege::M && (deleg >> trap_code(t)) & 1 == 1 {
                new.privilege == Privilege::S
            } else {
                new.privilege == Privilege::M
            }
        }),
{
    let deleg = if is_interrupt(t) { old.csrs.reg(SLOT_MIDELEG) } else { old.csrs.reg(SLOT_MEDELEG) };
    assert((0u64 >> trap_code(t)) & 1 == 0) by {
        let c = trap_code(t);
        assert((0u64 >> c) & 1 == 0) by (bit_vector);
    }
    if old.config.privilege_level != PrivilegeLevel::MSU {
        assert(deleg == 0);
    }
}

/// Writing a CSR through `set_csr` and reading it back through `csr` gives the written value
/// after the write transform, as the read transform shows it. `after` is the hart as a successful
/// `set_csr(id, v)` leaves it; the address is one that the CSR file stores.
pub proof fn lemma_csr_write_then_read(before: &ProcessorState, after: &ProcessorState, id: u64, v: u64)
    requires
        before.wf(),
        before.csr_writable(id),
        crate::csr::slot_of(id & 0xfff, before.csrs.has_s) is Some,
        after.same_but_csrs(before),
        after.csrs.regs@ == before.csrs.write_spec(id & 0xfff, v),
    ensures
        after.csr_spec(id) == Ok::<u64, crate::trap::Exception>(before.csrs.read_view(id & 0xfff,
            before.csrs.write_transform(id & 0xfff, v))),
{
    let a = id & 0xfff;
    crate::csr::lemma_write_then_read(&before.csrs, &after.csrs, a, v, before.insns_cnt);
    assert((a < 0xb00 ==> a & 0xff0 < 0xb00) && (a == 0xf14 ==> a & 0xff0 == 0xf10)) by (bit_vector);
}

/// The fetch of hart `p` at `next_pc` is a cold one: the translation fails, or the cache holds
/// nothing for the physical address, or it agrees with memory (for a `pc` on a half-word boundary
/// whose instruction stays in its page).
pub open spec fn fetch_is_cold(p: &Processor, bus: &Bus) -> bool {
    let pc = p.state.next_pc;
    ||| (match fetch_translate(&p.state, bus, pc) {
        Err(_) => true,
        Ok(pa) => !p.fetcher.icache.holds(pa),
    })
    ||| (coherent(&p.fetcher.icache, bus) && pc % 2 == 0 && pc % 4096 != 4094)
}

/// A step that runs a straight-line instruction fetched cold leaves `next_pc` at the
/// instruction's address plus its size.
pub proof fn lemma_step_straight_line(p: &Processor, bus: &Bus, new: &ProcessorState, mem: Seq<u8>)
    requires
        p.wf(),
        fetch_is_cold(p, bus),
        pending_interrupt(&p.state) is None,
        stepped(p, bus, new, mem, Ok(())),
        cold_fetch(&p.state, bus, standard_patterns(), p.state.next_pc) matches Ok(i) && straight_line(i.kind,
            p.state.config.xlen),
    ensures
        new.pc == p.state.next_pc,
        new.next_pc == wrap_add(p.state.next_pc, insn_size(cold_fetch(&p.state, bus, standard_patterns(),
            p.state.next_pc)->Ok_0.kind)),
{
    reveal(executed);
    let (f, mid) = choose|f: Result<Instruction, Exception>, mid: ProcessorState| fetch_outcome(&p.fetcher.icache,
        &p.state, bus, standard_patterns(), p.state.next_pc, f) && #[trigger] executed(&mid, &p.state, bus, mem, f, Ok(()))
        && *new == mid;
    let i = f->Ok_0;
    let s1 = at_insn(&p.state, i.ir);
    lemma_straight_line_advances(i.kind, &s1, bus);
}

/// Re-running a faulting instruction: a hart whose state equals, `pc` and `ir` aside, the state
/// of a step that trapped with exception `e`, and whose fetch is cold too, traps with `e` again.
pub proof fn lemma_step_trap_repeats(p1: &Processor, p2: &Processor, bus: &Bus, new1: &ProcessorState, mem1: Seq<u8>,
    new2: &ProcessorState, mem2: Seq<u8>, e: Exception, r2: Result<(), Trap>)
    requires
        p1.wf(),
        p2.wf(),
        p2.state == (ProcessorState { pc: p2.state.pc, ir: p2.state.ir, ..p1.state }),
        pending_interrupt(&p1.state) is None,
        fetch_is_cold(p1, bus),
        fetch_is_cold(p2, bus),
        stepped(p1, bus, new1, mem1, Err(Trap::Exception(e))),
        stepped(p2, bus, new2, mem2, r2),
    ensures
        r2 == Err::<(), Trap>(Trap::Exception(e)),
{
    reveal(executed);
    let ds = standard_patterns();
    let pc = p1.state.next_pc;
    let (f1, m1) = choose|f: Result<Instruction, Exception>, mid: ProcessorState| fetch_outcome(&p1.fetcher.icache,
        &p1.state, bus, ds, pc, f) && #[trigger] executed(&mid, &p1.state, bus, mem1, f, Err(Trap::Exception(e)))
        && trap_delivered(new1, &mid, Trap::Exception(e));
    assert(pending_interrupt(&p2.state) is None);
    let (f2, m2) = choose|f: Result<Instruction, Exception>, mid: ProcessorState| fetch_outcome(&p2.fetcher.icache,
        &p2.state, bus, ds, pc, f) && #[trigger] executed(&mid, &p2.state, bus, mem2, f, r2) && match r2 {
            Ok(()) => *new2 == mid,
            Err(t) => trap_delivered(new2, &mid, t),
        };
    assert(fetch_translate(&p2.state, bus, pc) == fetch_translate(&p1.state, bus, pc));
    assert(cold_fetch(&p2.state, bus, ds, pc) == cold_fetch(&p1.state, bus, ds, pc));
    assert(f1 == f2);
    if let Ok(i) = f1 {
        assert(at_insn(&p2.state, i.ir) == at_insn(&p1.state, i.ir));
    }
}

/// A step that fetches ECALL cold in U-mode, on a hart with S-mode whose `medeleg` has bit 8,
/// traps with the ECALL-from-U exception and delivers it to S: `scause` 8 and `sepc` the pc.
pub proof fn lemma_step_ecall_from_user(p: &Processor, bus: &Bus, new: &ProcessorState, mem: Seq<u8>, r: Result<(), Trap>)
    requires
        p.wf(),
        fetch_is_cold(p, bus),
        pending_interrupt(&p.state) is None,
        stepped(p, bus, new, mem, r),
        p.state.privilege == Privilege::U,
        p.state.config.privilege_level == PrivilegeLevel::MSU,
        (p.state.csrs.reg(SLOT_MEDELEG) >> 8u64) & 1 == 1,
        cold_fetch(&p.state, bus, standard_patterns(), p.state.next_pc) matches Ok(i) && i.kind == InsnKind::Ecall,
    ensures
        r == Err::<(), Trap>(Trap::Exception(Exception::UEcall)),
        new.privilege == Privilege::S,
        new.csrs.reg(crate::csr::SLOT_SCAUSE) == 8,
        new.csrs.reg(crate::csr::SLOT_SEPC) == p.state.next_pc,
        mem == bus.data@,
{
    reveal(executed);
    let (f, mid) = choose|f: Result<Instruction, Exception>, mid: ProcessorState| fetch_outcome(&p.fetcher.icache,
        &p.state, bus, standard_patterns(), p.state.next_pc, f) && #[trigger] executed(&mid, &p.state, bus, mem, f, r)
        && match r {
            Ok(()) => *new == mid,
            Err(t) => trap_delivered(new, &mid, t),
        };
    assert(r == Err::<(), Trap>(Trap::Exception(Exception::UEcall)));
    assert(trap_delivered(new, &mid, Trap::Exception(Exception::UEcall)));
}

} // verus!
