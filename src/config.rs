//! Hart configuration: register width, privilege profile and privilege levels.
use vstd::prelude::*;

verus! {

#[derive(Clone, Copy, Debug, PartialEq, Eq, Structural)]
pub enum XLen {
    X32,
    X64,
}

impl XLen {
    /// All ones over the register width.
    pub open spec fn mask_spec(self) -> u64 {
        match self {
            XLen::X32 => 0xffff_ffffu64,
            XLen::X64 => 0xffff_ffff_ffff_ffffu64,
        }
    }

    pub open spec fn len_spec(self) -> u64 {
        match self {
            XLen::X32 => 32,
            XLen::X64 => 64,
        }
    }

    pub fn mask(&self) -> (r: u64)
        ensures
            r == self.mask_spec(),
    {
        match self {
            XLen::X32 => 0xffff_ffff,
            XLen::X64 => 0xffff_ffff_ffff_ffff,
        }
    }

    pub fn len(&self) -> (r: u64)
        ensures
            r == self.len_spec(),
    {
        match self {
            XLen::X32 => 32,
            XLen::X64 => 64,
        }
    }
}

/// Which privilege modes a hart implements.
#[derive(Clone, Copy, Debug, PartialEq, Eq, Structural)]
pub enum PrivilegeLevel {
    M,
    MU,
    MSU,
}

#[derive(Clone, Copy, Debug, PartialEq, Eq, Structural)]
pub enum Privilege {
    U,
    S,
    M,
}

impl Privilege {
    /// The two-bit encoding used by `mstatus.mpp` and by CSR addresses.
    pub open spec fn value_spec(self) -> u64 {
        match self {
            Privilege::U => 0,
            Privilege::S => 1,
            Privilege::M => 3,
        }
    }

    pub open spec fn from_value_spec(v: u64) -> Option<Privilege> {
        if v == 0 {
            Some(Privilege::U)
        } else if v == 1 {
            Some(Privilege::S)
        } else if v == 3 {
            Some(Privilege::M)
        } else {
            None
        }
    }

    pub fn value(&self) -> (r: u64)
        ensures
            r == self.value_spec(),
    {
        match self {
            Privilege::U => 0,
            Privilege::S => 1,
            Privilege::M => 3,
        }
    }

    pub fn from_value(v: u64) -> (r: Option<Privilege>)
        ensures
            r == Self::from_value_spec(v),
    {
        if v == 0 {
            Some(Privilege::U)
        } else if v == 1 {
            Some(Privilege::S)
        } else if v == 3 {
            Some(Privilege::M)
        } else {
            None
        }
    }
}

impl PrivilegeLevel {
    /// Whether a hart with this profile implements privilege `p`.
    pub open spec fn allows(self, p: Privilege) -> bool {
        match self {
            PrivilegeLevel::M => p == Privilege::M,
            PrivilegeLevel::MU => p != Privilege::S,
            PrivilegeLevel::MSU => true,
        }
    }
}

#[derive(Clone, Copy, Debug)]
pub struct ProcessorCfg {
    pub xlen: XLen,
    pub hartid: u64,
    pub start_address: u64,
    pub privilege_level: PrivilegeLevel,
    pub enabel_dirty: bool,
}

impl ProcessorCfg {
    pub fn privilege_level(&self) -> (r: PrivilegeLevel)
        ensures
            r == self.privilege_level,
    {
        self.privilege_level
    }
}

} // verus!
