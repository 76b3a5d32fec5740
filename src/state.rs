//! The architectural state of one hart: registers, program counter, privilege, extensions, and
//! the routing of CSR accesses.
use vstd::prelude::*;
use crate::bits::{field, bit_range};
use crate::config::{XLen, Privilege, PrivilegeLevel, ProcessorCfg};
use crate::csr::{CsrFile, SLOT_MCOUNTEREN, SLOT_SCOUNTEREN, SLOT_MHARTID, misa_value};
use crate::trap::Exception;

verus! {

#[derive(Clone, Copy, Debug, PartialEq, Eq, Structural)]
pub enum ConfigError {
    /// On RV32 the start address must fit in 32 bits.
    StartAddress(u64),
    /// An extension letter that the hart does not implement.
    Extension(char),
    /// The instruction patterns overlap.
    Registry,
}

/// The extension letters that a hart may be configured with.
pub open spec fn supported_extension(c: char) -> bool {
    c == 'i' || c == 'm' || c == 'a' || c == 'f' || c == 'd' || c == 'c' || c == 's' || c == 'u'
}

pub struct ProcessorState {
    pub config: ProcessorCfg,
    pub privilege: Privilege,
    pub xreg: Vec<u64>,
    pub freg: Vec<u64>,
    pub extensions: Vec<char>,
    pub pc: u64,
    pub next_pc: u64,
    pub ir: u32,
    pub insns_cnt: u64,
    /// The physical address reserved by the last load-reserved, if any.
    pub reservation: Option<u64>,
    pub csrs: CsrFile,
}

/// The counter CSRs whose access from S and U is gated by `mcounteren` and `scounteren`.
pub open spec fn is_user_counter(a: u64) -> bool {
    let high = a & 0xff0;
    high == 0xc80 || high == 0xc90 || high == 0xc00 || high == 0xc10
}

/// The high halves of the counters, which only RV32 has.
pub open spec fn is_high_counter(a: u64) -> bool {
    let high = a & 0xff0;
    high == 0xc80 || high == 0xc90 || high == 0xb80 || high == 0xb90
}

impl ProcessorState {
    pub open spec fn wf(&self) -> bool {
        &&& self.xreg@.len() == 32
        &&& self.freg@.len() == 32
        &&& self.xreg@[0] == 0
        &&& self.csrs.wf()
        &&& self.csrs.xlen == self.config.xlen
        &&& self.csrs.level == self.config.privilege_level
        &&& self.config.privilege_level.allows(self.privilege)
        &&& self.csrs.has_s == (self.config.privilege_level == PrivilegeLevel::MSU)
        &&& (!self.csrs.has_s ==> self.csrs.reg(crate::csr::SLOT_MEDELEG) == 0 && self.csrs.reg(crate::csr::SLOT_MIDELEG) == 0)
    }

    pub open spec fn has_extension(&self, c: char) -> bool {
        self.extensions@.contains(c)
    }

    pub open spec fn illegal(&self) -> Exception {
        Exception::IllegalInsn(self.ir)
    }

    /// The value of register `id` (its low five bits), `x0` reading zero.
    pub open spec fn xreg_spec(&self, id: u64) -> u64 {
        let i = id & 0x1f;
        if i == 0 {
            0
        } else {
            self.xreg@[i as int]
        }
    }

    /// Whether the counter enables let the current privilege read counter `a`.
    pub open spec fn counter_enabled(&self, a: u64) -> bool {
        let bit = 1u64 << (a & 0x1f);
        match self.privilege {
            Privilege::M => true,
            Privilege::S => self.csrs.reg(SLOT_MCOUNTEREN) & bit != 0,
            Privilege::U => self.csrs.reg(SLOT_MCOUNTEREN) & bit != 0 && (!self.has_extension('s')
                || self.csrs.reg(SLOT_SCOUNTEREN) & bit != 0),
        }
    }

    /// What reading CSR `id` gives: its low twelve bits address it.
    pub open spec fn csr_spec(&self, id: u64) -> Result<u64, Exception> {
        let a = id & 0xfff;
        if self.privilege.value_spec() < field(a, 9, 8) {
            Err(self.illegal())
        } else if is_high_counter(a) && self.config.xlen != XLen::X32 {
            Err(self.illegal())
        } else if is_user_counter(a) && !self.counter_enabled(a) {
            Err(self.illegal())
        } else {
            match self.csrs.read_spec(a, self.insns_cnt) {
                None => Err(self.illegal()),
                Some(v) => Ok(v),
            }
        }
    }

    /// Whether writing CSR `id` is allowed: privilege, a writable address, and not a read-only one.
    pub open spec fn csr_writable(&self, id: u64) -> bool {
        let a = id & 0xfff;
        &&& self.privilege.value_spec() >= field(a, 9, 8)
        &&& field(a, 11, 10) != 3
        &&& self.csrs.writable(a)
    }

    /// `self` and `other` agree on everything but the CSR slots.
    pub open spec fn same_but_csrs(&self, other: &ProcessorState) -> bool {
        &&& self.config == other.config
        &&& self.privilege == other.privilege
        &&& self.xreg@ == other.xreg@
        &&& self.freg@ == other.freg@
        &&& self.extensions@ == other.extensions@
        &&& self.pc == other.pc
        &&& self.next_pc == other.next_pc
        &&& self.ir == other.ir
        &&& self.insns_cnt == other.insns_cnt
        &&& self.reservation == other.reservation
        &&& self.csrs.xlen == other.csrs.xlen
        &&& self.csrs.level == other.csrs.level
        &&& self.csrs.has_s == other.csrs.has_s
    }
}

/// The bit of an extension letter in `misa`.
pub open spec fn extension_bit(c: char) -> u64 {
    1u64 << ((c as u32 - 97) as u64)
}

/// The `misa` extension bits of a list of letters.
pub open spec fn extension_bits(cs: Seq<char>) -> u64
    decreases cs.len(),
{
    if cs.len() == 0 {
        0
    } else {
        extension_bits(cs.drop_last()) | extension_bit(cs.last())
    }
}

pub fn is_supported_extension(c: char) -> (r: bool)
    ensures
        r == supported_extension(c),
{
    c == 'i' || c == 'm' || c == 'a' || c == 'f' || c == 'd' || c == 'c' || c == 's' || c == 'u'
}

impl ProcessorState {
    /// A hart in its reset state: M-mode, registers zero, about to fetch from the start address.
    /// Extension `i` is always there, followed by `extensions`.
    pub fn new(config: ProcessorCfg, extensions: Vec<char>) -> (r: Result<ProcessorState, ConfigError>)
        ensures
            match r {
                Ok(s) => {
                    &&& s.wf()
                    &&& s.config == config
                    &&& s.privilege == Privilege::M
                    &&& s.pc == 0
                    &&& s.next_pc == config.start_address
                    &&& s.ir == 0
                    &&& s.insns_cnt == 0
                    &&& s.reservation is None
                    &&& (forall|i: int| 0 <= i < 32 ==> #[trigger] s.xreg@[i] == 0)
                    &&& s.extensions@ == seq!['i'] + extensions@
                    &&& s.csrs.has_s == (config.privilege_level == PrivilegeLevel::MSU)
                    &&& s.csrs.reg(SLOT_MHARTID) == config.hartid
                    &&& s.csrs.reg(crate::csr::SLOT_MISA) == misa_value(config.xlen, extension_bits(s.extensions@))
                    &&& !(config.xlen == XLen::X32 && config.start_address >= 0x1_0000_0000)
                    &&& forall|i: int| 0 <= i < extensions@.len() ==> supported_extension(#[trigger] extensions@[i])
                },
                Err(ConfigError::StartAddress(a)) => config.xlen == XLen::X32 && config.start_address >= 0x1_0000_0000
                    && a == config.start_address,
                Err(ConfigError::Extension(c)) => !(config.xlen == XLen::X32 && config.start_address >= 0x1_0000_0000)
                    && extensions@.contains(c) && !supported_extension(c),
                Err(ConfigError::Registry) => false,
            },
    {
        if config.xlen == XLen::X32 && config.start_address >= 0x1_0000_0000 {
            return Err(ConfigError::StartAddress(config.start_address));
        }
        let mut exts: Vec<char> = Vec::new();
        exts.push('i');
        let mut bits: u64 = 1u64 << 8u64;
        proof {
            assert(seq!['i'].drop_last() =~= Seq::<char>::empty());
            assert(0u64 | (1u64 << 8u64) == 1u64 << 8u64) by (bit_vector);
            reveal_with_fuel(extension_bits, 2);
            assert(('i' as u32) == 105);
            assert(seq!['i'].last() == 'i');
            assert(extension_bits(seq!['i']) == bits);
        }
        let mut i: usize = 0;
        while i < extensions.len()
            invariant
                i <= extensions@.len(),
                !(config.xlen == XLen::X32 && config.start_address >= 0x1_0000_0000),
                exts@ == seq!['i'] + extensions@.subrange(0, i as int),
                bits == extension_bits(exts@),
                forall|j: int| 0 <= j < i ==> supported_extension(#[trigger] extensions@[j]),
            decreases extensions@.len() - i,
        {
            let c = extensions[i];
            if !is_supported_extension(c) {
                proof {
                    assert(extensions@[i as int] == c);
                }
                return Err(ConfigError::Extension(c));
            }
            let ghost prev = exts@;
            exts.push(c);
            bits = bits | (1u64 << ((c as u32 - 97) as u64));
            proof {
                assert(exts@.drop_last() == prev);
                assert(exts@ =~= seq!['i'] + extensions@.subrange(0, i + 1));
            }
            i = i + 1;
        }
        proof {
            assert(extensions@.subrange(0, extensions@.len() as int) =~= extensions@);
        }
        let mut xreg: Vec<u64> = Vec::new();
        let mut freg: Vec<u64> = Vec::new();
        let mut k: usize = 0;
        while k < 32
            invariant
                k <= 32,
                xreg@.len() == k,
                freg@.len() == k,
                forall|j: int| 0 <= j < k ==> #[trigger] xreg@[j] == 0,
            decreases 32 - k,
        {
            xreg.push(0);
            freg.push(0);
            k = k + 1;
        }
        let has_s = config.privilege_level == PrivilegeLevel::MSU;
        let csrs = CsrFile::new(config.xlen, config.privilege_level, has_s, bits, config.hartid);
        Ok(ProcessorState {
            config,
            privilege: Privilege::M,
            xreg,
            freg,
            extensions: exts,
            pc: 0,
            next_pc: config.start_address,
            ir: 0,
            insns_cnt: 0,
            reservation: None,
            csrs,
        })
    }

    pub fn config(&self) -> (r: &ProcessorCfg)
        ensures
            *r == self.config,
    {
        &self.config
    }

    /// `IllegalInsn` carrying the current instruction word.
    pub fn illegal_insn(&self) -> (r: Exception)
        ensures
            r == self.illegal(),
    {
        Exception::IllegalInsn(self.ir)
    }

    pub fn check_extension(&self, ext: char) -> (r: Result<(), Exception>)
        ensures
            r == (if self.has_extension(ext) { Ok(()) } else { Err(self.illegal()) }),
    {
        let mut i: usize = 0;
        while i < self.extensions.len()
            invariant
                i <= self.extensions@.len(),
                forall|j: int| 0 <= j < i ==> self.extensions@[j] != ext,
            decreases self.extensions@.len() - i,
        {
            if self.extensions[i] == ext {
                return Ok(());
            }
            i = i + 1;
        }
        Err(self.illegal_insn())
    }

    pub fn check_xlen(&self, xlen: XLen) -> (r: Result<(), Exception>)
        ensures
            r == (if xlen == self.config.xlen { Ok(()) } else { Err(self.illegal()) }),
    {
        if xlen == self.config.xlen {
            Ok(())
        } else {
            Err(self.illegal_insn())
        }
    }

    /// Fails unless the privilege profile implements `privilege`.
    pub fn check_privilege_level(&self, privilege: Privilege) -> (r: Result<(), Exception>)
        ensures
            r == (if self.config.privilege_level.allows(privilege) { Ok(()) } else { Err(self.illegal()) }),
    {
        match self.config.privilege_level {
            PrivilegeLevel::M => if privilege != Privilege::M {
                return Err(self.illegal_insn());
            },
            PrivilegeLevel::MU => if privilege == Privilege::S {
                return Err(self.illegal_insn());
            },
            PrivilegeLevel::MSU => {},
        }
        Ok(())
    }

    pub fn privilege(&self) -> (r: Privilege)
        ensures
            r == self.privilege,
    {
        self.privilege
    }

    /// Moves to `privilege`, or to the nearest mode that the profile implements: an M-only hart
    /// stays in M, and an M/U hart goes to U for anything below M. Returns the mode entered.
    pub fn set_privilege(&mut self, privilege: Privilege) -> (r: Privilege)
        requires
            old(self).wf(),
        ensures
            final(self).wf(),
            r == final(self).privilege,
            r == match old(self).config.privilege_level {
                PrivilegeLevel::M => Privilege::M,
                PrivilegeLevel::MU => if privilege != Privilege::M { Privilege::U } else { Privilege::M },
                PrivilegeLevel::MSU => privilege,
            },
            *final(self) == (ProcessorState { privilege: r, ..*old(self) }),
    {
        match self.config.privilege_level {
            PrivilegeLevel::M => Privilege::M,
            PrivilegeLevel::MU => if privilege != Privilege::M {
                self.privilege = Privilege::U;
                Privilege::U
            } else {
                self.privilege = Privilege::M;
                Privilege::M
            },
            PrivilegeLevel::MSU => {
                self.privilege = privilege;
                privilege
            },
        }
    }

    /// The address of the instruction being executed.
    pub fn pc(&self) -> (r: u64)
        ensures
            r == self.pc,
    {
        self.pc
    }

    /// Sets the address of the next instruction to execute.
    pub fn set_pc(&mut self, pc: u64)
        ensures
            *final(self) == (ProcessorState { next_pc: pc, ..*old(self) }),
    {
        self.next_pc = pc;
    }

    pub fn next_pc(&self) -> (r: u64)
        ensures
            r == self.next_pc,
    {
        self.next_pc
    }

    pub fn ir(&self) -> (r: u32)
        ensures
            r == self.ir,
    {
        self.ir
    }

    pub fn insns_cnt(&self) -> (r: u64)
        ensures
            r == self.insns_cnt,
    {
        self.insns_cnt
    }

    /// Reads register `id` (its low five bits); `x0` reads zero.
    pub fn xreg(&self, id: u64) -> (r: u64)
        requires
            self.wf(),
        ensures
            r == self.xreg_spec(id),
    {
        let i = id & 0x1f;
        proof {
            assert(id & 0x1f < 32) by (bit_vector);
        }
        if i == 0 {
            0
        } else {
            self.xreg[i as usize]
        }
    }

    /// Writes register `id` (its low five bits); a write to `x0` is dropped.
    pub fn set_xreg(&mut self, id: u64, value: u64)
        requires
            old(self).wf(),
        ensures
            final(self).wf(),
            final(self).xreg@ == (if id & 0x1f == 0 { old(self).xreg@ } else { old(self).xreg@.update((id & 0x1f) as int, value) }),
            *final(self) == (ProcessorState { xreg: final(self).xreg, ..*old(self) }),
    {
        let i = id & 0x1f;
        proof {
            assert(id & 0x1f < 32) by (bit_vector);
        }
        if i != 0 {
            self.xreg.set(i as usize, value);
        }
    }

    /// Reads CSR `id`: the privilege the address asks for, the counter enables, and the CSR file.
    pub fn csr(&self, id: u64) -> (r: Result<u64, Exception>)
        requires
            self.wf(),
        ensures
            r == self.csr_spec(id),
    {
        let a = id & 0xfff;
        if self.privilege.value() < bit_range(a, 9, 8) {
            return Err(self.illegal_insn());
        }
        let high = a & 0xff0;
        if (high == 0xc80 || high == 0xc90 || high == 0xb80 || high == 0xb90) && self.config.xlen != XLen::X32 {
            return Err(self.illegal_insn());
        }
        if high == 0xc80 || high == 0xc90 || high == 0xc00 || high == 0xc10 {
            proof {
                assert(a & 0x1f < 32) by (bit_vector);
            }
            let bit = 1u64 << (a & 0x1f);
            let enabled = match self.privilege {
                Privilege::M => true,
                Privilege::S => self.csrs.get(SLOT_MCOUNTEREN) & bit != 0,
                Privilege::U => self.csrs.get(SLOT_MCOUNTEREN) & bit != 0 && (self.check_extension('s').is_err()
                    || self.csrs.get(SLOT_SCOUNTEREN) & bit != 0),
            };
            if !enabled {
                return Err(self.illegal_insn());
            }
        }
        match self.csrs.read(a, self.insns_cnt) {
            None => Err(self.illegal_insn()),
            Some(v) => Ok(v),
        }
    }

    /// Whether writing CSR `id` would be accepted.
    pub fn csr_write_allowed(&self, id: u64) -> (r: bool)
        ensures
            r == self.csr_writable(id),
    {
        let a = id & 0xfff;
        self.privilege.value() >= bit_range(a, 9, 8) && bit_range(a, 11, 10) != 3 && self.csrs.can_write(a)
    }

    /// Writes CSR `id` through its write transforms.
    pub fn set_csr(&mut self, id: u64, value: u64) -> (r: Result<(), Exception>)
        requires
            old(self).wf(),
        ensures
            final(self).wf(),
            final(self).same_but_csrs(old(self)),
            r is Ok == old(self).csr_writable(id),
            r is Err ==> r == Err::<(), Exception>(old(self).illegal()) && final(self).csrs.regs@ == old(self).csrs.regs@,
            r is Ok ==> final(self).csrs.regs@ == old(self).csrs.write_spec(id & 0xfff, value),
    {
        let a = id & 0xfff;
        if self.privilege.value() < bit_range(a, 9, 8) || bit_range(a, 11, 10) == 3 {
            return Err(self.illegal_insn());
        }
        match self.csrs.write(a, value) {
            None => Err(self.illegal_insn()),
            Some(()) => Ok(()),
        }
    }
}

} // verus!
