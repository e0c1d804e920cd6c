//! Interrupt handling: a two-state controller, armed until the first
//! interrupt arrives and handled afterwards. The decision whether the handler
//! unloads the module is fixed at startup from the unload option and never
//! changes; the signal registration itself lives outside the library.

use vstd::prelude::*;

verus! {

/// The state shared with the interrupt handler: whether cleanup was requested
/// at startup, and whether an interrupt has already been handled.
pub struct InterruptController {
    pub unload_on_interrupt: bool,
    pub handled: bool,
}

/// The controller as it is armed at startup.
pub open spec fn initial_controller(unload_flag: bool) -> InterruptController {
    InterruptController { unload_on_interrupt: unload_flag, handled: false }
}

impl InterruptController {
    /// The armed-to-handled transition and the unload decision it yields.
    pub open spec fn spec_interrupt(self) -> (InterruptController, bool) {
        (
            InterruptController { handled: true, ..self },
            self.unload_on_interrupt,
        )
    }

    /// Arms the controller with the unload option read at startup.
    pub fn new(unload_flag: bool) -> (r: Self)
        ensures
            r == initial_controller(unload_flag),
    {
        InterruptController { unload_on_interrupt: unload_flag, handled: false }
    }

    /// Handles one interrupt: the controller moves to handled and reports
    /// whether the module must now be unloaded.
    pub fn on_interrupt(&mut self) -> (do_unload: bool)
        ensures
            (*final(self), do_unload) == old(self).spec_interrupt(),
            final(self).handled,
            final(self).unload_on_interrupt == old(self).unload_on_interrupt,
            do_unload == old(self).unload_on_interrupt,
    {
        self.handled = true;
        self.unload_on_interrupt
    }
}

/// The controller after `interrupts` interrupts have been handled.
pub open spec fn controller_after(unload_flag: bool, interrupts: nat) -> InterruptController
    decreases interrupts,
{
    if interrupts == 0 {
        initial_controller(unload_flag)
    } else {
        controller_after(unload_flag, (interrupts - 1) as nat).spec_interrupt().0
    }
}

/// The interrupt handler triggers a module unload if and only if the unload
/// flag was set at startup — no matter how many interrupts came before or
/// when the interrupt arrives.
pub proof fn lemma_unload_iff_flag_at_startup(unload_flag: bool, interrupts: nat)
    ensures
        controller_after(unload_flag, interrupts).spec_interrupt().1 == unload_flag,
    decreases interrupts,
{
    if interrupts > 0 {
        lemma_unload_iff_flag_at_startup(unload_flag, (interrupts - 1) as nat);
    }
}

} // verus!
