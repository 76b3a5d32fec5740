//! Synchronous exceptions, asynchronous interrupts, and the trap that carries either.
use vstd::prelude::*;

verus! {

#[derive(Clone, Copy, Debug, PartialEq, Eq, Structural)]
pub enum Exception {
    FetchMisaligned(u64),
    FetchAccess(u64),
    IllegalInsn(u32),
    Breakpoint(u64),
    LoadMisaligned(u64),
    LoadAccess(u64),
    StoreMisaligned(u64),
    StoreAccess(u64),
    UEcall,
    SEcall,
    MEcall,
    FetchPageFault(u64),
    LoadPageFault(u64),
    StorePageFault(u64),
}

impl Exception {
    /// The exception code that `xcause` reports.
    pub open spec fn code_spec(self) -> u64 {
        match self {
            Exception::FetchMisaligned(_) => 0,
            Exception::FetchAccess(_) => 1,
            Exception::IllegalInsn(_) => 2,
            Exception::Breakpoint(_) => 3,
            Exception::LoadMisaligned(_) => 4,
            Exception::LoadAccess(_) => 5,
            Exception::StoreMisaligned(_) => 6,
            Exception::StoreAccess(_) => 7,
            Exception::UEcall => 8,
            Exception::SEcall => 9,
            Exception::MEcall => 11,
            Exception::FetchPageFault(_) => 12,
            Exception::LoadPageFault(_) => 13,
            Exception::StorePageFault(_) => 15,
        }
    }

    /// The value that `xtval` receives: the faulting address, or the instruction bits.
    pub open spec fn tval_spec(self) -> u64 {
        match self {
            Exception::FetchMisaligned(a) => a,
            Exception::FetchAccess(a) => a,
            Exception::IllegalInsn(ir) => ir as u64,
            Exception::Breakpoint(a) => a,
            Exception::LoadMisaligned(a) => a,
            Exception::LoadAccess(a) => a,
            Exception::StoreMisaligned(a) => a,
            Exception::StoreAccess(a) => a,
            Exception::UEcall => 0,
            Exception::SEcall => 0,
            Exception::MEcall => 0,
            Exception::FetchPageFault(a) => a,
            Exception::LoadPageFault(a) => a,
            Exception::StorePageFault(a) => a,
        }
    }

    pub fn code(&self) -> (r: u64)
        ensures
            r == self.code_spec(),
    {
        match self {
            Exception::FetchMisaligned(_) => 0,
            Exception::FetchAccess(_) => 1,
            Exception::IllegalInsn(_) => 2,
            Exception::Breakpoint(_) => 3,
            Exception::LoadMisaligned(_) => 4,
            Exception::LoadAccess(_) => 5,
            Exception::StoreMisaligned(_) => 6,
            Exception::StoreAccess(_) => 7,
            Exception::UEcall => 8,
            Exception::SEcall => 9,
            Exception::MEcall => 11,
            Exception::FetchPageFault(_) => 12,
            Exception::LoadPageFault(_) => 13,
            Exception::StorePageFault(_) => 15,
        }
    }

    pub fn tval(&self) -> (r: u64)
        ensures
            r == self.tval_spec(),
    {
        match self {
            Exception::FetchMisaligned(a) => *a,
            Exception::FetchAccess(a) => *a,
            Exception::IllegalInsn(ir) => *ir as u64,
            Exception::Breakpoint(a) => *a,
            Exception::LoadMisaligned(a) => *a,
            Exception::LoadAccess(a) => *a,
            Exception::StoreMisaligned(a) => *a,
            Exception::StoreAccess(a) => *a,
            Exception::UEcall => 0,
            Exception::SEcall => 0,
            Exception::MEcall => 0,
            Exception::FetchPageFault(a) => *a,
            Exception::LoadPageFault(a) => *a,
            Exception::StorePageFault(a) => *a,
        }
    }
}

#[derive(Clone, Copy, Debug, PartialEq, Eq, Structural)]
pub enum Interrupt {
    USInt,
    SSInt,
    MSInt,
    UTInt,
    STInt,
    MTInt,
    UEInt,
    SEInt,
    MEInt,
}

impl Interrupt {
    /// The interrupt code: its bit in `mip` and `mie`.
    pub open spec fn code_spec(self) -> u64 {
        match self {
            Interrupt::USInt => 0,
            Interrupt::SSInt => 1,
            Interrupt::MSInt => 3,
            Interrupt::UTInt => 4,
            Interrupt::STInt => 5,
            Interrupt::MTInt => 7,
            Interrupt::UEInt => 8,
            Interrupt::SEInt => 9,
            Interrupt::MEInt => 11,
        }
    }

    pub fn code(&self) -> (r: u64)
        ensures
            r == self.code_spec(),
    {
        match self {
            Interrupt::USInt => 0,
            Interrupt::SSInt => 1,
            Interrupt::MSInt => 3,
            Interrupt::UTInt => 4,
            Interrupt::STInt => 5,
            Interrupt::MTInt => 7,
            Interrupt::UEInt => 8,
            Interrupt::SEInt => 9,
            Interrupt::MEInt => 11,
        }
    }

    /// Interrupts carry no trap value.
    pub fn tval(&self) -> (r: u64)
        ensures
            r == 0,
    {
        0
    }
}

#[derive(Clone, Copy, Debug, PartialEq, Eq, Structural)]
pub enum Trap {
    Exception(Exception),
    Interrupt(Interrupt),
}

} // verus!
