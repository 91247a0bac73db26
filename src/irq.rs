//! The interrupt-enable flag of the running CPU and the guard that masks
//! interrupts for the length of a critical section.
use vstd::prelude::*;

verus! {

/// The interrupt-enable state of the CPU that runs the caller.
pub struct Cpu {
    irq_enabled: bool,
}

impl Cpu {
    pub closed spec fn irq_on(&self) -> bool {
        self.irq_enabled
    }

    pub fn new(irq_enabled: bool) -> (r: Self)
        ensures
            r.irq_on() == irq_enabled,
    {
        Cpu { irq_enabled }
    }

    pub fn irq_enabled(&self) -> (r: bool)
        ensures
            r == self.irq_on(),
    {
        self.irq_enabled
    }
}

/// The single-use duty to put back the interrupt state that was found when
/// interrupts were masked.
///
/// It is neither `Copy` nor `Clone`: whoever holds it is the one party that
/// restores interrupts.
pub struct DisableInterruptGuard {
    was_enabled: bool,
}

impl DisableInterruptGuard {
    /// Whether interrupts were enabled when this guard masked them.
    pub closed spec fn saved(&self) -> bool {
        self.was_enabled
    }

    /// Masks interrupts, remembering whether they were enabled.
    pub fn new(cpu: &mut Cpu) -> (g: Self)
        ensures
            g.saved() == old(cpu).irq_on(),
            !final(cpu).irq_on(),
    {
        let was_enabled = cpu.irq_enabled;
        cpu.irq_enabled = false;
        DisableInterruptGuard { was_enabled }
    }

    /// Whether interrupts were enabled when this guard masked them.
    pub fn was_enabled(&self) -> (r: bool)
        ensures
            r == self.saved(),
    {
        self.was_enabled
    }

    /// Puts back the interrupt state found when this guard was made.
    pub fn restore(self, cpu: &mut Cpu)
        ensures
            final(cpu).irq_on() == self.saved(),
    {
        cpu.irq_enabled = self.was_enabled;
    }
}

} // verus!
