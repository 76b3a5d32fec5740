//! A system: harts sharing one bus, with memory regions, an optional HTIF window, and program
//! segments loaded into memory.
use vstd::prelude::*;
use crate::bus::{Bus, BusError, RegionError, RegionInfo, holds, overlaps};
use crate::config::ProcessorCfg;
use crate::processor::{Processor, line_set, stepped, config_rejected};
use crate::state::ConfigError;
use crate::trap::{Interrupt, Trap};
use crate::timer::Timer;

verus! {

/// The size of the HTIF window.
pub const HTIF_SIZE: u64 = 0x1000;

#[derive(Clone, Copy, Debug, PartialEq, Eq, Structural)]
pub enum SystemError {
    Config(ConfigError),
    Region(RegionError),
}

/// A segment could not be loaded: the byte at this address has no memory behind it.
#[derive(Clone, Copy, Debug, PartialEq, Eq, Structural)]
pub struct LoadError {
    pub addr: u64,
}

/// Whether some region holds the byte at `a`.
pub open spec fn mapped(rs: Seq<RegionInfo>, a: u64) -> bool {
    exists|j: int| 0 <= j < rs.len() && holds(#[trigger] rs[j], a, 1)
}

/// The byte store after writing `data[i..]` one byte at a time from `addr + i` on, starting
/// from `d`; a byte with no region behind it is skipped.
pub open spec fn bytes_loaded(rs: Seq<RegionInfo>, d: Seq<u8>, addr: u64, data: Seq<u8>, i: int) -> Seq<u8>
    decreases data.len() - i,
{
    if i < 0 || i >= data.len() {
        d
    } else {
        let a = (addr + i) as u64;
        let next = match find_first(rs, a) {
            Some(j) => d.update(rs[j].start + (a - rs[j].base), data[i]),
            None => d,
        };
        bytes_loaded(rs, next, addr, data, i + 1)
    }
}

/// The first region that holds the byte at `a`.
pub open spec fn find_first(rs: Seq<RegionInfo>, a: u64) -> Option<int> {
    crate::bus::find_from(rs, a, 1, 0)
}

pub struct System {
    pub name: String,
    pub bus: Bus,
    pub timer: Timer,
    pub processors: Vec<Processor>,
    /// The index of the HTIF region, once registered.
    pub htif: Option<usize>,
}

impl System {
    pub open spec fn wf(&self) -> bool {
        &&& self.bus.wf()
        &&& forall|i: int| 0 <= i < self.processors@.len() ==> (#[trigger] self.processors@[i]).wf()
        &&& self.htif matches Some(h) ==> h < self.bus.regions@.len()
        &&& self.timer.mtimecmp@.len() == self.processors@.len()
    }

    /// A system with one hart per configuration, each with the extensions given and a timer
    /// line of its own, and no memory.
    pub fn new(name: String, processor_cfgs: Vec<ProcessorCfg>, extensions: Vec<char>, timer_freq: u64) -> (r: Result<System, SystemError>)
        ensures
            r matches Ok(s) ==> s.wf() && s.processors@.len() == processor_cfgs@.len() && s.bus.regions@.len() == 0
                && s.htif is None && forall|i: int| 0 <= i < processor_cfgs@.len() ==> (#[trigger] s.processors@[i]).state.config
                == processor_cfgs@[i],
            r matches Err(e) ==> e matches SystemError::Config(_),
            r is Err ==> exists|i: int| 0 <= i < processor_cfgs@.len() && config_rejected(#[trigger] processor_cfgs@[i], extensions@),
    {
        let mut processors: Vec<Processor> = Vec::new();
        let mut timer = Timer::new(timer_freq);
        let mut i: usize = 0;
        while i < processor_cfgs.len()
            invariant
                i <= processor_cfgs@.len(),
                processors@.len() == i,
                timer.mtimecmp@.len() == i,
                forall|j: int| 0 <= j < i ==> (#[trigger] processors@[j]).wf() && processors@[j].state.config == processor_cfgs@[j],
            decreases processor_cfgs@.len() - i,
        {
            let exts = copy_chars(&extensions);
            match Processor::new(processor_cfgs[i], exts) {
                Ok(p) => {
                    processors.push(p);
                    timer.alloc_irq();
                },
                Err(e) => {
                    proof {
                        assert(config_rejected(processor_cfgs@[i as int], extensions@));
                    }
                    return Err(SystemError::Config(e));
                },
            }
            i = i + 1;
        }
        Ok(System { name, bus: Bus::new(), timer, processors, htif: None })
    }

    pub fn processor(&self, hartid: usize) -> (r: Option<&Processor>)
        ensures
            hartid < self.processors@.len() ==> r == Some(&self.processors@[hartid as int]),
            hartid >= self.processors@.len() ==> r is None,
    {
        if hartid >= self.processors.len() {
            None
        } else {
            Some(&self.processors[hartid])
        }
    }

    pub fn timer(&self) -> (r: &Timer)
        ensures
            *r == self.timer,
    {
        &self.timer
    }

    /// Sets the comparator of hart `hartid`.
    pub fn set_mtimecmp(&mut self, hartid: usize, v: u64)
        requires
            old(self).wf(),
            hartid < old(self).processors@.len(),
        ensures
            final(self).wf(),
            final(self).timer.mtimecmp@ == old(self).timer.mtimecmp@.update(hartid as int, v),
            final(self).timer.mtime == old(self).timer.mtime,
            final(self).processors@ == old(self).processors@,
            final(self).bus == old(self).bus,
    {
        self.timer.set_mtimecmp(hartid, v);
    }

    /// Advances the timer by `n` ticks.
    pub fn tick(&mut self, n: u64)
        requires
            old(self).wf(),
        ensures
            final(self).wf(),
            final(self).timer.mtime == (if old(self).timer.mtime + n > u64::MAX { u64::MAX as int } else { old(self).timer.mtime + n }),
            final(self).timer.mtimecmp@ == old(self).timer.mtimecmp@,
            final(self).processors@ == old(self).processors@,
            final(self).bus == old(self).bus,
    {
        self.timer.tick(n);
    }

    pub fn bus(&self) -> (r: &Bus)
        ensures
            *r == self.bus,
    {
        &self.bus
    }

    /// Registers the HTIF window at `addr`, when there is one.
    pub fn try_register_htif(&mut self, addr: Option<u64>) -> (r: Result<(), RegionError>)
        requires
            old(self).wf(),
        ensures
            final(self).wf(),
            final(self).processors@ == old(self).processors@,
            match addr {
                None => r is Ok && final(self).bus == old(self).bus && final(self).htif == old(self).htif,
                Some(a) => match r {
                    Ok(()) => final(self).htif == Some(old(self).bus.regions@.len() as usize)
                        && final(self).bus.regions@ == old(self).bus.regions@.push(RegionInfo {
                            base: a,
                            size: HTIF_SIZE,
                            start: old(self).bus.data@.len() as usize,
                        }),
                    Err(_) => final(self).bus == old(self).bus && final(self).htif == old(self).htif,
                },
            },
            addr matches Some(a) ==> (a + HTIF_SIZE <= 0x1_0000_0000_0000_0000 && old(self).bus.data@.len() + HTIF_SIZE
                <= usize::MAX && forall|j: int| 0 <= j < old(self).bus.regions@.len() ==> !overlaps(
                #[trigger] old(self).bus.regions@[j], a, HTIF_SIZE)) ==> r is Ok,
    {
        match addr {
            None => Ok(()),
            Some(a) => {
                let i = self.bus.add_region(a, HTIF_SIZE)?;
                self.htif = Some(i);
                Ok(())
            },
        }
    }

    /// Registers `size` bytes of memory at `base`. Where it overlaps the HTIF window, the parts
    /// below and above the window are registered instead.
    pub fn register_memory(&mut self, base: u64, size: u64) -> (r: Result<(), RegionError>)
        requires
            old(self).wf(),
        ensures
            final(self).wf(),
            final(self).processors@ == old(self).processors@,
            final(self).htif == old(self).htif,
            final(self).bus.regions@.subrange(0, old(self).bus.regions@.len() as int) == old(self).bus.regions@,
            r is Ok ==> forall|a: u64| base <= a < base + size ==> mapped(final(self).bus.regions@, a),
            size == 0 || (base + size <= 0x1_0000_0000_0000_0000 && old(self).bus.data@.len() + size <= usize::MAX
                && forall|j: int| 0 <= j < old(self).bus.regions@.len() && old(self).htif != Some(j as usize)
                ==> !overlaps(#[trigger] old(self).bus.regions@[j], base, size)) ==> r is Ok,
            r is Ok ==> forall|j: int| old(self).bus.regions@.len() <= j < final(self).bus.regions@.len() ==> {
                let n = #[trigger] final(self).bus.regions@[j];
                base <= n.base && n.base + n.size <= base + size
            },
    {
        let ghost before = self.bus.regions@;
        if size == 0 {
            return Ok(());
        }
        match self.bus.add_region(base, size) {
            Ok(_) => {
                proof {
                    let n = self.bus.regions@.len() - 1;
                    assert(self.bus.regions@.subrange(0, before.len() as int) =~= before);
                    assert forall|a: u64| base <= a < base + size implies mapped(self.bus.regions@, a) by {
                        assert(holds(self.bus.regions@[n], a, 1));
                    }
                }
                Ok(())
            },
            Err(RegionError::Overlap(j)) => {
                match self.htif {
                    Some(h) => {
                        if h != j {
                            return Err(RegionError::Overlap(j));
                        }
                        if base as u128 + size as u128 > 0x1_0000_0000_0000_0000u128 {
                            return Err(RegionError::Invalid);
                        }
                        let hr = self.bus.regions[h];
                        proof {
                            assert(hr.base + hr.size <= 0x1_0000_0000_0000_0000);
                        }
                        let ghost n0 = self.bus.regions@.len();
                        if base < hr.base {
                            self.bus.add_region(base, hr.base - base)?;
                        }
                        let ghost n1 = self.bus.regions@.len();
                        let hend = hr.base as u128 + hr.size as u128;
                        let end = base as u128 + size as u128;
                        if end > hend {
                            self.bus.add_region(hend as u64, (end - hend) as u64)?;
                        }
                        proof {
                            let rs = self.bus.regions@;
                            assert(rs.subrange(0, before.len() as int) =~= before);
                            assert(rs[h as int] == hr);
                            assert forall|k: int| before.len() <= k < rs.len() implies ({
                                let n = #[trigger] rs[k];
                                base <= n.base && n.base + n.size <= base + size
                            }) by {
                                if k == n0 && n1 > n0 {
                                    assert(rs[k].base == base && rs[k].size == hr.base - base);
                                } else {
                                    assert(k == n1);
                                    assert(rs[k].base == hend && rs[k].size == end - hend);
                                }
                            }
                            assert forall|x: u64| base <= x < base + size implies mapped(rs, x) by {
                                if x < hr.base {
                                    assert(holds(rs[n0 as int], x, 1));
                                } else if x < hend {
                                    assert(holds(rs[h as int], x, 1));
                                } else {
                                    assert(holds(rs[n1 as int], x, 1));
                                }
                            }
                        }
                        Ok(())
                    },
                    None => Err(RegionError::Overlap(j)),
                }
            },
            Err(e) => Err(e),
        }
    }
}

impl System {
    /// Writes `data` from `addr` on, byte by byte. It stops with the address of the first byte
    /// that no region holds.
    pub fn load_segment(&mut self, addr: u64, data: &[u8]) -> (r: Result<(), LoadError>)
        requires
            old(self).wf(),
            addr + data@.len() <= 0x1_0000_0000_0000_0000,
        ensures
            final(self).wf(),
            final(self).processors@ == old(self).processors@,
            final(self).htif == old(self).htif,
            final(self).bus.regions@ == old(self).bus.regions@,
            match r {
                Ok(()) => (forall|i: int| 0 <= i < data@.len() ==> mapped(old(self).bus.regions@, #[trigger] (addr + i) as u64))
                    && final(self).bus.data@ == bytes_loaded(old(self).bus.regions@, old(self).bus.data@, addr, data@, 0),
                Err(e) => exists|i: int| 0 <= i < data@.len() && e.addr == (addr + i) as u64
                    && !mapped(old(self).bus.regions@, #[trigger] (addr + i) as u64)
                    && forall|k: int| 0 <= k < i ==> mapped(old(self).bus.regions@, #[trigger] (addr + k) as u64),
            },
    {
        let ghost rs = self.bus.regions@;
        let mut i: usize = 0;
        while i < data.len()
            invariant
                self.wf(),
                self.processors@ == old(self).processors@,
                self.htif == old(self).htif,
                self.bus.regions@ == rs,
                rs == old(self).bus.regions@,
                i <= data@.len(),
                addr + data@.len() <= 0x1_0000_0000_0000_0000,
                forall|k: int| 0 <= k < i ==> mapped(rs, #[trigger] (addr + k) as u64),
                bytes_loaded(rs, old(self).bus.data@, addr, data@, 0) == bytes_loaded(rs, self.bus.data@, addr, data@, i as int),
            decreases data@.len() - i,
        {
            let a = addr + i as u64;
            let ghost d0 = self.bus.data@;
            match self.bus.write(a, data[i] as u64, 1) {
                Ok(()) => {
                    proof {
                        crate::bus::lemma_find_from(rs, a, 1, 0);
                        let j = find_first(rs, a)->Some_0;
                        assert(holds(rs[j], a, 1));
                        let v = data@[i as int] as u64;
                        assert(v >> 0u64 == v) by (bit_vector);
                        assert(#[verifier::truncate] ((v >> 0u64) as u8) == data@[i as int]);
                        reveal_with_fuel(crate::bus::le_store, 2);
                        assert(self.bus.data@ == d0.update(rs[j].start + (a - rs[j].base), data@[i as int]));
                    }
                },
                Err(_) => {
                    proof {
                        crate::bus::lemma_find_from(rs, a, 1, 0);
                        if mapped(rs, a) {
                            let j = choose|j: int| 0 <= j < rs.len() && holds(#[trigger] rs[j], a, 1);
                            lemma_found_if_held(rs, a, j);
                        }
                        assert(!mapped(rs, (addr + i) as u64));
                    }
                    return Err(LoadError { addr: a });
                },
            }
            i = i + 1;
        }
        Ok(())
    }

    /// Runs one step of hart `hartid`, its timer line set from the timer first; `None` when
    /// there is no such hart.
    pub fn step(&mut self, hartid: usize) -> (r: Option<Result<(), Trap>>)
        requires
            old(self).wf(),
        ensures
            final(self).wf(),
            final(self).processors@.len() == old(self).processors@.len(),
            final(self).bus.regions@ == old(self).bus.regions@,
            (r is None) == (hartid >= old(self).processors@.len()),
            r is None ==> *final(self) == *old(self),
            final(self).timer == old(self).timer,
            forall|i: int| 0 <= i < old(self).processors@.len() && i != hartid ==> #[trigger] final(self).processors@[i]
                == old(self).processors@[i],
            r matches Some(t) ==> exists|mid: Processor| line_set(&mid, &old(self).processors@[hartid as int], 7,
                old(self).timer.mtime >= old(self).timer.mtimecmp@[hartid as int]) && #[trigger] stepped(&mid,
                &old(self).bus, &final(self).processors@[hartid as int].state, final(self).bus.data@, t),
    {
        if hartid >= self.processors.len() {
            return None;
        }
        let mut p = self.processors.remove(hartid);
        let line = self.timer.irq_pending(hartid);
        p.set_interrupt_pending(Interrupt::MTInt, line);
        let ghost mid = p;
        let t = p.step_one(&mut self.bus);
        self.processors.insert(hartid, p);
        proof {
            assert forall|i: int| 0 <= i < self.processors@.len() implies (#[trigger] self.processors@[i]).wf() by {
                if i < hartid {
                    assert(self.processors@[i] == old(self).processors@[i]);
                } else if i > hartid {
                    assert(self.processors@[i] == old(self).processors@[i]);
                }
            }
            assert(self.processors@[hartid as int] == p);
            assert(line_set(&mid, &old(self).processors@[hartid as int], 7, line));
            assert(stepped(&mid, &old(self).bus, &self.processors@[hartid as int].state, self.bus.data@, t));
        }
        Some(t)
    }
}

/// An access that some region holds is found.
pub proof fn lemma_found_if_held(rs: Seq<RegionInfo>, a: u64, j: int)
    requires
        0 <= j < rs.len(),
        holds(rs[j], a, 1),
    ensures
        find_first(rs, a) is Some,
{
    lemma_found_from(rs, a, j, 0);
}

proof fn lemma_found_from(rs: Seq<RegionInfo>, a: u64, j: int, i: int)
    requires
        0 <= i <= j < rs.len(),
        holds(rs[j], a, 1),
    ensures
        crate::bus::find_from(rs, a, 1, i) is Some,
    decreases j - i,
{
    if i < j && !holds(rs[i], a, 1) {
        lemma_found_from(rs, a, j, i + 1);
    }
}

fn copy_chars(v: &Vec<char>) -> (r: Vec<char>)
    ensures
        r@ == v@,
{
    let mut r: Vec<char> = Vec::new();
    let mut i: usize = 0;
    while i < v.len()
        invariant
            i <= v@.len(),
            r@ == v@.subrange(0, i as int),
        decreases v@.len() - i,
    {
        r.push(v[i]);
        i = i + 1;
    }
    assert(r@ =~= v@);
    r
}

} // verus!
