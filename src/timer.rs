//! The machine timer: one `mtime` counter and one `mtimecmp` comparator per hart; a hart's
//! timer line is raised while `mtime >= mtimecmp`.
use vstd::prelude::*;

verus! {

pub struct Timer {
    /// Ticks per second, for the host's pacing.
    pub freq: u64,
    pub mtime: u64,
    pub mtimecmp: Vec<u64>,
}

impl Timer {
    pub fn new(freq: u64) -> (r: Timer)
        ensures
            r.freq == freq,
            r.mtime == 0,
            r.mtimecmp@.len() == 0,
    {
        Timer { freq, mtime: 0, mtimecmp: Vec::new() }
    }

    /// Adds the comparator of a new hart, at its largest value so that the line starts low;
    /// returns its index.
    pub fn alloc_irq(&mut self) -> (r: usize)
        ensures
            r == old(self).mtimecmp@.len(),
            final(self).mtimecmp@ == old(self).mtimecmp@.push(u64::MAX),
            final(self).mtime == old(self).mtime,
            final(self).freq == old(self).freq,
    {
        let i = self.mtimecmp.len();
        self.mtimecmp.push(u64::MAX);
        i
    }

    /// Advances `mtime` by `n`, stopping at its largest value.
    pub fn tick(&mut self, n: u64)
        ensures
            final(self).mtime == (if old(self).mtime + n > u64::MAX { u64::MAX as int } else { old(self).mtime + n }),
            final(self).mtimecmp@ == old(self).mtimecmp@,
            final(self).freq == old(self).freq,
    {
        self.mtime = self.mtime.saturating_add(n);
    }

    pub fn set_mtimecmp(&mut self, irq: usize, v: u64)
        requires
            irq < old(self).mtimecmp@.len(),
        ensures
            final(self).mtimecmp@ == old(self).mtimecmp@.update(irq as int, v),
            final(self).mtime == old(self).mtime,
            final(self).freq == old(self).freq,
    {
        self.mtimecmp.set(irq, v);
    }

    /// Whether the timer line of `irq` is raised.
    pub fn irq_pending(&self, irq: usize) -> (r: bool)
        requires
            irq < self.mtimecmp@.len(),
        ensures
            r == (self.mtime >= self.mtimecmp@[irq as int]),
    {
        self.mtime >= self.mtimecmp[irq]
    }
}

} // verus!
