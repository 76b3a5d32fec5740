//! A hart: its state, fetcher, load/store unit and decoder registry, the execute cycle, interrupt
//! selection and trap delivery.
use vstd::prelude::*;
use crate::bits::{field, with_field, bit_range, set_bit_range};
use crate::bus::Bus;
use crate::config::{XLen, Privilege, PrivilegeLevel, ProcessorCfg};
use crate::csr::{SLOT_MSTATUS, SLOT_MEDELEG, SLOT_MIDELEG, SLOT_MIE, SLOT_MIP, SLOT_MTVEC, SLOT_STVEC, SLOT_MEPC,
    SLOT_SEPC, SLOT_MCAUSE, SLOT_SCAUSE, SLOT_MTVAL, SLOT_STVAL};
use crate::decode::{InsnMap, standard_patterns};
use crate::fetcher::{Fetcher, fetch_outcome};
use crate::mmu::Mmu;
use crate::insns::{execute_kind, committed};
use crate::load_store::LoadStore;
use crate::semantics::{Effect, insn_spec, clamp_privilege, wrap_add};
use crate::state::{ProcessorState, ConfigError};
use crate::trap::{Exception, Interrupt, Trap};

verus! {

pub open spec fn trap_code(t: Trap) -> u64 {
    match t {
        Trap::Exception(e) => e.code_spec(),
        Trap::Interrupt(i) => i.code_spec(),
    }
}

pub open spec fn trap_tval(t: Trap) -> u64 {
    match t {
        Trap::Exception(e) => e.tval_spec(),
        Trap::Interrupt(_) => 0,
    }
}

pub open spec fn is_interrupt(t: Trap) -> bool {
    t is Interrupt
}

/// The mode that takes trap `t`: S when the hart is below M and the delegation register
/// (`mideleg` for interrupts, `medeleg` for exceptions) has the trap's bit, else M.
pub open spec fn trap_target(s: &ProcessorState, t: Trap) -> Privilege {
    let deleg = if is_interrupt(t) { s.csrs.reg(SLOT_MIDELEG) } else { s.csrs.reg(SLOT_MEDELEG) };
    if s.privilege != Privilege::M && (deleg >> trap_code(t)) & 1 == 1 {
        Privilege::S
    } else {
        Privilege::M
    }
}

/// The `xcause` value of a trap: the interrupt flag in the top bit, the code below.
pub open spec fn cause_value(xlen: XLen, t: Trap) -> u64 {
    if is_interrupt(t) {
        (1u64 << ((xlen.len_spec() - 1) as u64)) | trap_code(t)
    } else {
        trap_code(t)
    }
}

/// Where a trap handler starts: the `xtvec` base, plus four times the code for an interrupt in
/// vectored mode.
pub open spec fn vector_address(s: &ProcessorState, tvec: u64, t: Trap) -> u64 {
    let offset: u64 = if tvec & 3 == 1 && is_interrupt(t) { (trap_code(t) * 4) as u64 } else { 0 };
    wrap_add(tvec & !3u64, offset) & s.config.xlen.mask_spec()
}

/// The CSR slots after trap `t` is delivered to S.
pub open spec fn s_trap_csrs(s: &ProcessorState, t: Trap) -> Seq<u64> {
    let ms = s.csrs.reg(SLOT_MSTATUS);
    let ms1 = with_field(with_field(with_field(ms, 5, 5, field(ms, 1, 1)), 8, 8, s.privilege.value_spec()), 1, 1, 0);
    s.csrs.regs@.update(SLOT_SCAUSE as int, cause_value(s.config.xlen, t)).update(SLOT_SEPC as int, s.pc).update(
        SLOT_STVAL as int, trap_tval(t)).update(SLOT_MSTATUS as int, ms1)
}

/// The CSR slots after trap `t` is delivered to M.
pub open spec fn m_trap_csrs(s: &ProcessorState, t: Trap) -> Seq<u64> {
    let ms = s.csrs.reg(SLOT_MSTATUS);
    let ms1 = with_field(with_field(with_field(ms, 7, 7, field(ms, 3, 3)), 12, 11, s.privilege.value_spec()), 3, 3, 0);
    s.csrs.regs@.update(SLOT_MCAUSE as int, cause_value(s.config.xlen, t)).update(SLOT_MEPC as int, s.pc).update(
        SLOT_MTVAL as int, trap_tval(t)).update(SLOT_MSTATUS as int, ms1)
}

/// `new` is `old` after trap `t` was delivered.
pub open spec fn trap_delivered(new: &ProcessorState, old: &ProcessorState, t: Trap) -> bool {
    let target = trap_target(old, t);
    &&& new.privilege == clamp_privilege(old.config.privilege_level, target)
    &&& new.csrs.regs@ == (if target == Privilege::S { s_trap_csrs(old, t) } else { m_trap_csrs(old, t) })
    &&& new.next_pc == vector_address(old, old.csrs.reg(if target == Privilege::S { SLOT_STVEC } else { SLOT_MTVEC }), t)
    &&& new.xreg@ == old.xreg@
    &&& new.freg@ == old.freg@
    &&& new.config == old.config
    &&& new.extensions@ == old.extensions@
    &&& new.pc == old.pc
    &&& new.ir == old.ir
    &&& new.insns_cnt == old.insns_cnt
    &&& new.reservation == old.reservation
}

/// Whether interrupt `code` is pending, enabled, and allowed by the global enables of the mode
/// that would take it.
pub open spec fn interrupt_ready(s: &ProcessorState, code: u64) -> bool {
    let pending = s.csrs.reg(SLOT_MIE) & s.csrs.reg(SLOT_MIP);
    let ms = s.csrs.reg(SLOT_MSTATUS);
    let delegated = (s.csrs.reg(SLOT_MIDELEG) >> code) & 1 == 1;
    let enabled = if delegated {
        s.privilege == Privilege::U || (s.privilege == Privilege::S && field(ms, 1, 1) == 1)
    } else {
        s.privilege != Privilege::M || field(ms, 3, 3) == 1
    };
    (pending >> code) & 1 == 1 && enabled
}

/// The interrupt to take before the next fetch, by priority: external, software, timer; M-level
/// before S-level.
pub open spec fn pending_interrupt(s: &ProcessorState) -> Option<Interrupt> {
    if interrupt_ready(s, 11) {
        Some(Interrupt::MEInt)
    } else if interrupt_ready(s, 3) {
        Some(Interrupt::MSInt)
    } else if interrupt_ready(s, 7) {
        Some(Interrupt::MTInt)
    } else if interrupt_ready(s, 9) {
        Some(Interrupt::SEInt)
    } else if interrupt_ready(s, 1) {
        Some(Interrupt::SSInt)
    } else if interrupt_ready(s, 5) {
        Some(Interrupt::STInt)
    } else {
        None
    }
}

pub struct Processor {
    pub state: ProcessorState,
    pub mmu: Mmu,
    pub fetcher: Fetcher,
    pub load_store: LoadStore,
    pub decoder: InsnMap,
}

impl Processor {
    pub open spec fn wf(&self) -> bool {
        &&& self.state.wf()
        &&& self.fetcher.wf()
        &&& self.fetcher.icache.decoded(self.decoder.decoders@)
        &&& self.decoder.wf()
        &&& self.decoder.decoders@ == standard_patterns()
    }
}

/// `new` is `s1` after the effect `e` was committed and the instruction retired.
pub open spec fn retired(new: &ProcessorState, s1: &ProcessorState, e: Effect) -> bool {
    &&& new.xreg@ == e.xreg
    &&& new.freg@ == e.freg
    &&& new.csrs.regs@ == e.csrs
    &&& new.next_pc == e.next_pc
    &&& new.privilege == e.privilege
    &&& new.reservation == e.reservation
    &&& new.config == s1.config
    &&& new.extensions@ == s1.extensions@
    &&& new.pc == s1.pc
    &&& new.ir == s1.ir
    &&& new.insns_cnt == wrap_add(s1.insns_cnt, 1)
}

/// `mid` is `old` with `pc` moved to `old.next_pc` and perhaps a new `ir`, nothing else changed:
/// the state in which a trap of the step is taken.
pub open spec fn before_trap(mid: &ProcessorState, old: &ProcessorState) -> bool {
    &&& mid.pc == old.next_pc
    &&& mid.next_pc == old.next_pc
    &&& mid.xreg@ == old.xreg@
    &&& mid.freg@ == old.freg@
    &&& mid.csrs.regs@ == old.csrs.regs@
    &&& mid.privilege == old.privilege
    &&& mid.config == old.config
    &&& mid.extensions@ == old.extensions@
    &&& mid.insns_cnt == old.insns_cnt
    &&& mid.reservation == old.reservation
}

/// A step that ran instruction word `ir` from `old` to `new`, with the bus data going to `mem`.
pub open spec fn ran(new: &ProcessorState, old: &ProcessorState, old_bus: &Bus, mem: Seq<u8>, ir: u32) -> bool {
    let s1 = at_insn(old, ir);
    &&& crate::decode::decode_spec(standard_patterns(), ir) is Ok
    &&& insn_spec(crate::decode::decode_spec(standard_patterns(), ir)->Ok_0.kind, &s1, old_bus) matches Ok(e)
        && retired(new, &s1, e) && mem == e.mem
}

pub open spec fn as_trap(r: Result<(), Exception>) -> Result<(), Trap> {
    match r {
        Ok(()) => Ok(()),
        Err(e) => Err(Trap::Exception(e)),
    }
}

/// Running one instruction from `old`, whose fetch gave `f`: a fetch error is the step's
/// exception; a fetched instruction commits its effect and retires, or raises its own exception
/// and commits nothing. `new` and `mem` are the state and the bus bytes after it.
#[verifier::opaque]
pub open spec fn executed(new: &ProcessorState, old: &ProcessorState, old_bus: &Bus, mem: Seq<u8>,
    f: Result<crate::decode::Instruction, Exception>, r: Result<(), Trap>) -> bool {
    match f {
        Err(e) => r == Err::<(), Trap>(Trap::Exception(e)) && before_trap(new, old) && new.ir == old.ir
            && mem == old_bus.data@,
        Ok(i) => {
            let s1 = at_insn(old, i.ir);
            match insn_spec(i.kind, &s1, old_bus) {
                Ok(e) => r is Ok && retired(new, &s1, e) && mem == e.mem,
                Err(x) => r == Err::<(), Trap>(Trap::Exception(x)) && before_trap(new, old) && new.ir == i.ir
                    && mem == old_bus.data@,
            }
        },
    }
}

/// One step of hart `p` on `bus`, leaving the hart's state `new` and the bus bytes `mem`, with
/// result `r`: a pending interrupt is taken before the fetch; otherwise the instruction at
/// `next_pc`, fetched as `fetch_outcome` allows, runs as `executed` says; a trap is delivered.
pub open spec fn stepped(p: &Processor, bus: &Bus, new: &ProcessorState, mem: Seq<u8>, r: Result<(), Trap>) -> bool {
    match pending_interrupt(&p.state) {
        Some(i) => r == Err::<(), Trap>(Trap::Interrupt(i)) && mem == bus.data@ && trap_delivered(new,
            &ProcessorState { pc: p.state.next_pc, ..p.state }, Trap::Interrupt(i)),
        None => exists|f: Result<crate::decode::Instruction, Exception>, mid: ProcessorState|
            fetch_outcome(&p.fetcher.icache, &p.state, bus, standard_patterns(), p.state.next_pc, f)
            && #[trigger] executed(&mid, &p.state, bus, mem, f, r) && match r {
                Ok(()) => *new == mid,
                Err(t) => trap_delivered(new, &mid, t),
            },
    }
}

/// `new` is `old` with interrupt line `code` of `mip` set to `level`, nothing else changed.
pub open spec fn line_set(new: &Processor, old: &Processor, code: u64, level: bool) -> bool {
    &&& new.wf()
    &&& new.fetcher == old.fetcher
    &&& new.decoder == old.decoder
    &&& new.state.same_but_csrs(&old.state)
    &&& new.state.csrs.regs@ == old.state.csrs.regs@.update(SLOT_MIP as int, with_field(old.state.csrs.reg(SLOT_MIP),
        code, code, if level { 1 } else { 0 }))
}

/// Whether `Processor::new` refuses a configuration with these extensions: an RV32 start address
/// of 2^32 or more, an extension letter it does not implement, or overlapping patterns in the
/// standard registry.
pub open spec fn config_rejected(config: ProcessorCfg, extensions: Seq<char>) -> bool {
    ||| config.xlen == XLen::X32 && config.start_address >= 0x1_0000_0000
    ||| exists|c: char| extensions.contains(c) && !crate::state::supported_extension(c)
    ||| exists|i: int, j: int| 0 <= i < j < standard_patterns().len() && crate::decode::overlap(
        #[trigger] standard_patterns()[i], #[trigger] standard_patterns()[j])
}

/// The state with `pc` moved to the instruction about to run, whose word is `ir`.
pub open spec fn at_insn(s: &ProcessorState, ir: u32) -> ProcessorState {
    ProcessorState { pc: s.next_pc, ir, ..*s }
}

impl Processor {
    /// A hart in its reset state, with the standard instruction registry and an empty cache.
    pub fn new(config: ProcessorCfg, extensions: Vec<char>) -> (r: Result<Processor, ConfigError>)
        ensures
            match r {
                Ok(p) => {
                    &&& p.wf()
                    &&& p.state.config == config
                    &&& p.state.privilege == Privilege::M
                    &&& p.state.next_pc == config.start_address
                    &&& p.state.insns_cnt == 0
                    &&& p.state.extensions@ == seq!['i'] + extensions@
                    &&& forall|i: int| 0 <= i < 32 ==> #[trigger] p.state.xreg@[i] == 0
                    &&& forall|a: u64| !p.fetcher.icache.holds(a)
                },
                Err(ConfigError::StartAddress(a)) => config.xlen == XLen::X32 && config.start_address >= 0x1_0000_0000
                    && a == config.start_address,
                Err(ConfigError::Extension(c)) => extensions@.contains(c) && !crate::state::supported_extension(c),
                Err(ConfigError::Registry) => exists|i: int, j: int| 0 <= i < j < standard_patterns().len()
                    && crate::decode::overlap(#[trigger] standard_patterns()[i], #[trigger] standard_patterns()[j]),
            },
            r is Err ==> config_rejected(config, extensions@),
    {
        let decoder = match InsnMap::standard() {
            Ok(m) => m,
            Err(_) => {
                return Err(ConfigError::Registry);
            },
        };
        let state = ProcessorState::new(config, extensions)?;
        let fetcher = Fetcher::new();
        Ok(Processor { state, mmu: Mmu::new(), fetcher, load_store: LoadStore::new(), decoder })
    }

    pub fn state(&self) -> (r: &ProcessorState)
        ensures
            *r == self.state,
    {
        &self.state
    }

    pub fn mmu(&self) -> (r: &Mmu)
        ensures
            *r == self.mmu,
    {
        &self.mmu
    }

    pub fn load_store(&self) -> (r: &LoadStore)
        ensures
            *r == self.load_store,
    {
        &self.load_store
    }

    /// Empties the instruction cache; needed after any change of the code that it holds.
    pub fn flush_icache(&mut self)
        requires
            old(self).wf(),
        ensures
            final(self).wf(),
            final(self).state == old(self).state,
            forall|a: u64| !final(self).fetcher.icache.holds(a),
    {
        self.fetcher.flush_icache();
    }

    /// Sets or clears bit `code` of `mip`: how devices and the host raise interrupt lines.
    pub fn set_interrupt_pending(&mut self, i: Interrupt, pending: bool)
        requires
            old(self).wf(),
        ensures
            final(self).wf(),
            final(self).state.csrs.reg(SLOT_MIP) == with_field(old(self).state.csrs.reg(SLOT_MIP), i.code_spec(), i.code_spec(), if pending { 1 } else { 0 }),
            final(self).state.csrs.regs@ == old(self).state.csrs.regs@.update(SLOT_MIP as int, final(self).state.csrs.reg(SLOT_MIP)),
            final(self).state.same_but_csrs(&old(self).state),
            final(self).fetcher == old(self).fetcher,
            final(self).decoder == old(self).decoder,
    {
        let code = i.code();
        let mip = self.state.csrs.get(SLOT_MIP);
        let v: u64 = if pending { 1 } else { 0 };
        self.state.csrs.set(SLOT_MIP, set_bit_range(mip, code, code, v));
    }

    /// Delivers trap `t`: see `trap_target` for where it goes.
    pub fn handle_trap(&mut self, t: Trap)
        requires
            old(self).wf(),
        ensures
            final(self).wf(),
            trap_delivered(&final(self).state, &old(self).state, t),
            final(self).fetcher == old(self).fetcher,
            final(self).decoder == old(self).decoder,
    {
        let (int_flag, deleg, code, tval) = match t {
            Trap::Exception(e) => (false, self.state.csrs.get(SLOT_MEDELEG), e.code(), e.tval()),
            Trap::Interrupt(i) => (true, self.state.csrs.get(SLOT_MIDELEG), i.code(), i.tval()),
        };
        proof {
            assert(code <= 15);
        }
        let top = self.state.config.xlen.len() - 1;
        let cause = if int_flag { (1u64 << top) | code } else { code };
        let m = self.state.config.xlen.mask();
        let pc = self.state.pc;
        let priv_value = self.state.privilege.value();
        let ms = self.state.csrs.get(SLOT_MSTATUS);
        if self.state.privilege != Privilege::M && (deleg >> code) & 1 == 1 {
            let tvec = self.state.csrs.get(SLOT_STVEC);
            let offset: u64 = if tvec & 3 == 1 && int_flag { code * 4 } else { 0 };
            self.state.set_pc((tvec & !3u64).wrapping_add(offset) & m);
            self.state.csrs.set(SLOT_SCAUSE, cause);
            self.state.csrs.set(SLOT_SEPC, pc);
            self.state.csrs.set(SLOT_STVAL, tval);
            let ms1 = set_bit_range(set_bit_range(set_bit_range(ms, 5, 5, bit_range(ms, 1, 1)), 8, 8, priv_value), 1, 1, 0);
            self.state.csrs.set(SLOT_MSTATUS, ms1);
            self.state.set_privilege(Privilege::S);
        } else {
            let tvec = self.state.csrs.get(SLOT_MTVEC);
            let offset: u64 = if tvec & 3 == 1 && int_flag { code * 4 } else { 0 };
            self.state.set_pc((tvec & !3u64).wrapping_add(offset) & m);
            self.state.csrs.set(SLOT_MCAUSE, cause);
            self.state.csrs.set(SLOT_MEPC, pc);
            self.state.csrs.set(SLOT_MTVAL, tval);
            let ms1 = set_bit_range(set_bit_range(set_bit_range(ms, 7, 7, bit_range(ms, 3, 3)), 12, 11, priv_value), 3, 3, 0);
            self.state.csrs.set(SLOT_MSTATUS, ms1);
            self.state.set_privilege(Privilege::M);
        }
    }

    fn interrupt_is_ready(&self, code: u64) -> (r: bool)
        requires
            self.wf(),
            code < 64,
        ensures
            r == interrupt_ready(&self.state, code),
    {
        let pending = self.state.csrs.get(SLOT_MIE) & self.state.csrs.get(SLOT_MIP);
        let ms = self.state.csrs.get(SLOT_MSTATUS);
        let delegated = (self.state.csrs.get(SLOT_MIDELEG) >> code) & 1 == 1;
        let enabled = if delegated {
            self.state.privilege == Privilege::U || (self.state.privilege == Privilege::S && bit_range(ms, 1, 1) == 1)
        } else {
            self.state.privilege != Privilege::M || bit_range(ms, 3, 3) == 1
        };
        (pending >> code) & 1 == 1 && enabled
    }

    /// The interrupt to take before the next fetch, if any.
    pub fn take_interrupt(&self) -> (r: Result<(), Trap>)
        requires
            self.wf(),
        ensures
            r == match pending_interrupt(&self.state) {
                Some(i) => Err::<(), Trap>(Trap::Interrupt(i)),
                None => Ok(()),
            },
    {
        if self.interrupt_is_ready(11) {
            Err(Trap::Interrupt(Interrupt::MEInt))
        } else if self.interrupt_is_ready(3) {
            Err(Trap::Interrupt(Interrupt::MSInt))
        } else if self.interrupt_is_ready(7) {
            Err(Trap::Interrupt(Interrupt::MTInt))
        } else if self.interrupt_is_ready(9) {
            Err(Trap::Interrupt(Interrupt::SEInt))
        } else if self.interrupt_is_ready(1) {
            Err(Trap::Interrupt(Interrupt::SSInt))
        } else if self.interrupt_is_ready(5) {
            Err(Trap::Interrupt(Interrupt::STInt))
        } else {
            Ok(())
        }
    }

    /// Fetches and executes the instruction at `next_pc`. On success the instruction's effect is
    /// committed and it retires; on an exception nothing but `pc` (and `ir`, once fetched) changes.
    pub fn one_insn(&mut self, bus: &mut Bus) -> (r: Result<(), Exception>)
        requires
            old(self).wf(),
            old(bus).wf(),
        ensures
            final(self).wf(),
            final(bus).wf(),
            final(bus).regions@ == old(bus).regions@,
            final(self).decoder == old(self).decoder,
            final(self).state.pc == old(self).state.next_pc,
            exists|f: Result<crate::decode::Instruction, Exception>| fetch_outcome(&old(self).fetcher.icache,
                &old(self).state, old(bus), standard_patterns(), old(self).state.next_pc, f) && #[trigger] executed(
                &final(self).state, &old(self).state, old(bus), final(bus).data@, f, as_trap(r)),
    {
        let pc = self.state.next_pc;
        let f = self.fetcher.fetch(&mut self.state, bus, &self.decoder, pc);
        proof {
            reveal(executed);
        }
        self.state.pc = pc;
        let insn = match f {
            Ok(insn) => insn,
            Err(e) => {
                proof {
                    assert(executed(&self.state, &old(self).state, old(bus), bus.data@, f, as_trap(Err(e))));
                }
                return Err(e);
            },
        };
        let ghost s1 = self.state;
        proof {
            assert(s1 == at_insn(&old(self).state, insn.ir));
        }
        let flush = match execute_kind(insn.kind, &mut self.state, &self.load_store, bus) {
            Ok(f) => f,
            Err(e) => {
                proof {
                    assert(executed(&self.state, &old(self).state, old(bus), bus.data@, f, as_trap(Err(e))));
                }
                return Err(e);
            },
        };
        if flush {
            self.fetcher.flush_icache();
        }
        self.state.insns_cnt = self.state.insns_cnt.wrapping_add(1);
        proof {
            assert(executed(&self.state, &old(self).state, old(bus), bus.data@, f, as_trap(Ok(()))));
        }
        Ok(())
    }

    /// Takes a pending interrupt, or runs one instruction.
    pub fn execute_one(&mut self, bus: &mut Bus) -> (r: Result<(), Trap>)
        requires
            old(self).wf(),
            old(bus).wf(),
        ensures
            final(self).wf(),
            final(bus).wf(),
            final(bus).regions@ == old(bus).regions@,
            final(self).state.pc == old(self).state.next_pc,
            pending_interrupt(&old(self).state) matches Some(i) ==> r == Err::<(), Trap>(Trap::Interrupt(i))
                && final(self).state == (ProcessorState { pc: old(self).state.next_pc, ..old(self).state })
                && final(bus).data@ == old(bus).data@,
            pending_interrupt(&old(self).state) is None ==> exists|f: Result<crate::decode::Instruction, Exception>|
                fetch_outcome(&old(self).fetcher.icache, &old(self).state, old(bus), standard_patterns(),
                old(self).state.next_pc, f) && #[trigger] executed(&final(self).state, &old(self).state, old(bus),
                final(bus).data@, f, r),
    {
        if let Err(t) = self.take_interrupt() {
            self.state.pc = self.state.next_pc;
            return Err(t);
        }
        match self.one_insn(bus) {
            Ok(()) => Ok(()),
            Err(e) => Err(Trap::Exception(e)),
        }
    }

    /// Advances the hart by one step: a pending interrupt or the next instruction; a trap is
    /// delivered to its handler and also returned.
    pub fn step_one(&mut self, bus: &mut Bus) -> (r: Result<(), Trap>)
        requires
            old(self).wf(),
            old(bus).wf(),
        ensures
            final(self).wf(),
            final(bus).wf(),
            final(bus).regions@ == old(bus).regions@,
            stepped(old(self), old(bus), &final(self).state, final(bus).data@, r),
    {
        let r = self.execute_one(bus);
        let ghost mid = self.state;
        if let Err(t) = r {
            self.handle_trap(t);
        }
        proof {
            if pending_interrupt(&old(self).state) is None {
                let f = choose|f: Result<crate::decode::Instruction, Exception>| fetch_outcome(&old(self).fetcher.icache,
                    &old(self).state, old(bus), standard_patterns(), old(self).state.next_pc, f) && #[trigger] executed(
                    &mid, &old(self).state, old(bus), bus.data@, f, r);
                assert(executed(&mid, &old(self).state, old(bus), bus.data@, f, r));
            }
        }
        r
    }
}

} // verus!
