//! A machine: an address space with memory, an optional HTIF window and a loaded program,
//! without harts.
use vstd::prelude::*;
use crate::bus::{Bus, RegionError, overlaps};
use crate::system::{System, LoadError, mapped, bytes_loaded, HTIF_SIZE};
use crate::timer::Timer;

verus! {

pub struct Machine {
    pub space: System,
}

impl Machine {
    pub open spec fn wf(&self) -> bool {
        self.space.wf() && self.space.processors@.len() == 0
    }

    pub fn new(name: String) -> (r: Machine)
        ensures
            r.wf(),
            r.space.bus.regions@.len() == 0,
            r.space.htif is None,
    {
        Machine { space: System { name, bus: Bus::new(), timer: Timer::new(0), processors: Vec::new(), htif: None } }
    }

    /// Registers the HTIF window at `addr`, when there is one.
    pub fn try_register_htif(&mut self, addr: Option<u64>) -> (r: Result<(), RegionError>)
        requires
            old(self).wf(),
        ensures
            final(self).wf(),
            addr is None ==> r is Ok && final(self).space.bus == old(self).space.bus,
            r is Ok && addr is Some ==> final(self).space.htif == Some(old(self).space.bus.regions@.len() as usize),
            addr matches Some(a) ==> (a + HTIF_SIZE <= 0x1_0000_0000_0000_0000 && old(self).space.bus.data@.len() + HTIF_SIZE
                <= usize::MAX && forall|j: int| 0 <= j < old(self).space.bus.regions@.len() ==> !overlaps(
                #[trigger] old(self).space.bus.regions@[j], a, HTIF_SIZE)) ==> r is Ok,
    {
        self.space.try_register_htif(addr)
    }

    /// Registers `size` bytes of memory at `base`, around the HTIF window.
    pub fn register_memory(&mut self, base: u64, size: u64) -> (r: Result<(), RegionError>)
        requires
            old(self).wf(),
        ensures
            final(self).wf(),
            r is Ok ==> forall|a: u64| base <= a < base + size ==> mapped(final(self).space.bus.regions@, a),
            size == 0 || (base + size <= 0x1_0000_0000_0000_0000 && old(self).space.bus.data@.len() + size <= usize::MAX
                && forall|j: int| 0 <= j < old(self).space.bus.regions@.len() && old(self).space.htif != Some(j as usize)
                ==> !overlaps(#[trigger] old(self).space.bus.regions@[j], base, size)) ==> r is Ok,
    {
        self.space.register_memory(base, size)
    }

    /// Loads one program segment.
    pub fn load_elf(&mut self, addr: u64, data: &[u8]) -> (r: Result<(), LoadError>)
        requires
            old(self).wf(),
            addr + data@.len() <= 0x1_0000_0000_0000_0000,
        ensures
            final(self).wf(),
            r is Ok ==> final(self).space.bus.data@ == bytes_loaded(old(self).space.bus.regions@,
                old(self).space.bus.data@, addr, data@, 0),
    {
        self.space.load_segment(addr, data)
    }
}

} // verus!
