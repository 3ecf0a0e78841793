//! Which interrupt names are processor exceptions, and which may be bound to a
//! task.

use vstd::prelude::*;
use crate::model::{Features, HardwareTask, SubApp};

verus! {

/// Cortex-M exceptions whose priority can be configured. A hardware task may be
/// bound to one; its priority is set in the `SCB`.
pub open spec fn configurable_exception(name: Seq<char>) -> bool {
    ||| name == "MemoryManagement"@
    ||| name == "BusFault"@
    ||| name == "UsageFault"@
    ||| name == "SecureFault"@
    ||| name == "SVCall"@
    ||| name == "DebugMonitor"@
    ||| name == "PendSV"@
    ||| name == "SysTick"@
}

/// Exceptions whose priority is fixed. No task may be bound to one.
pub open spec fn non_configurable_exception(name: Seq<char>) -> bool {
    ||| name == "NonMaskableInt"@
    ||| name == "HardFault"@
}

/// Interrupts of the inter-core FIFO.
pub open spec fn fifo_interrupt(name: Seq<char>) -> bool {
    ||| name == "SIO_IRQ_PROC1"@
    ||| name == "SIO_IRQ_PROC0"@
}

fn name_is(name: &String, expected: &str) -> (r: bool)
    ensures
        r == (name@ == expected@),
{
    *name == expected.to_owned()
}

/// Tells whether `name` is an exception with configurable priority.
pub fn is_exception(name: &String) -> (r: bool)
    ensures
        r == configurable_exception(name@),
{
    name_is(name, "MemoryManagement") || name_is(name, "BusFault") || name_is(name, "UsageFault")
        || name_is(name, "SecureFault") || name_is(name, "SVCall") || name_is(name, "DebugMonitor")
        || name_is(name, "PendSV") || name_is(name, "SysTick")
}

/// Why a task may not be bound to an interrupt.
#[derive(Clone, Copy, Debug, PartialEq, Eq, Structural)]
pub enum BindingFault {
    /// The interrupt is an exception with fixed priority.
    FixedPriority,
    /// The interrupt belongs to the inter-core FIFO.
    ReservedFifo,
}

impl BindingFault {
    /// The text that the user sees.
    pub open spec fn spec_message(self) -> Seq<char> {
        match self {
            BindingFault::FixedPriority =>
                "only exceptions with configurable priority can be used as hardware tasks"@,
            BindingFault::ReservedFifo =>
                "FIFO interrupts are reserved by RTICX for cross-core tasks and cannot be for a hardware task"@,
        }
    }

    /// The text that the user sees.
    pub fn message(&self) -> (r: &'static str)
        ensures
            r@ == self.spec_message(),
    {
        match self {
            BindingFault::FixedPriority =>
                "only exceptions with configurable priority can be used as hardware tasks",
            BindingFault::ReservedFifo =>
                "FIFO interrupts are reserved by RTICX for cross-core tasks and cannot be for a hardware task",
        }
    }
}

/// What is wrong with binding a task to the interrupt `name`, if anything.
pub open spec fn name_fault(features: Features, name: Seq<char>) -> Option<BindingFault> {
    if non_configurable_exception(name) {
        Some(BindingFault::FixedPriority)
    } else if features.spec_uses_fifo() && fifo_interrupt(name) {
        Some(BindingFault::ReservedFifo)
    } else {
        None
    }
}

/// What is wrong with the binding of `task`, if anything. A task without a
/// binding is never at fault.
pub open spec fn task_fault(features: Features, task: HardwareTask) -> Option<BindingFault> {
    match task.binds {
        Some(name) => name_fault(features, name@),
        None => None,
    }
}

/// Tells what is wrong with the binding of one task.
pub fn binding_fault(features: Features, task: &HardwareTask) -> (r: Option<BindingFault>)
    ensures
        r == task_fault(features, *task),
{
    match &task.binds {
        None => None,
        Some(name) => {
            if name_is(name, "NonMaskableInt") || name_is(name, "HardFault") {
                return Some(BindingFault::FixedPriority);
            }
            // Software tasks use the FIFO for spawning tasks from one core to the other
            if features.uses_fifo() && (name_is(name, "SIO_IRQ_PROC1") || name_is(
                name,
                "SIO_IRQ_PROC0",
            )) {
                return Some(BindingFault::ReservedFifo);
            }
            None
        },
    }
}

/// A task that is bound to an interrupt it may not have: the task's place in
/// the application, and the reason.
#[derive(Clone, Copy, Debug, PartialEq, Eq, Structural)]
pub struct BindingError {
    pub sub_app: usize,
    pub task: usize,
    pub fault: BindingFault,
}

/// No task of `sub_apps` before task `task` of part `sub_app`, in source order,
/// is at fault.
pub open spec fn faultless_before(
    features: Features,
    sub_apps: Seq<SubApp>,
    sub_app: int,
    task: int,
) -> bool {
    forall|i: int, j: int|
        #![trigger sub_apps[i].tasks@[j]]
        0 <= i < sub_apps.len() && 0 <= j < sub_apps[i].tasks@.len() && (i < sub_app || (i
            == sub_app && j < task)) ==> task_fault(features, sub_apps[i].tasks@[j]) is None
}

/// An exception either has a configurable priority or a fixed one, never both,
/// and no exception is a FIFO interrupt.
pub proof fn law_interrupt_kinds_disjoint(name: Seq<char>)
    ensures
        !(configurable_exception(name) && non_configurable_exception(name)),
        !(configurable_exception(name) && fifo_interrupt(name)),
        !(non_configurable_exception(name) && fifo_interrupt(name)),
{
    reveal_strlit("MemoryManagement");
    reveal_strlit("BusFault");
    reveal_strlit("UsageFault");
    reveal_strlit("SecureFault");
    reveal_strlit("SVCall");
    reveal_strlit("DebugMonitor");
    reveal_strlit("PendSV");
    reveal_strlit("SysTick");
    reveal_strlit("NonMaskableInt");
    reveal_strlit("HardFault");
    reveal_strlit("SIO_IRQ_PROC1");
    reveal_strlit("SIO_IRQ_PROC0");
    if non_configurable_exception(name) {
        assert(name[0] == 'N' || name[0] == 'H');
    }
    if fifo_interrupt(name) {
        assert(name[1] == 'I');
        assert(name[0] == 'S');
    }
    if configurable_exception(name) {
        assert(name[0] == 'M' || name[0] == 'B' || name[0] == 'U' || name[0] == 'S' || name[0]
            == 'D' || name[0] == 'P');
        assert(name[0] == 'S' ==> name[1] != 'I');
    }
}

/// A task bound to an exception with configurable priority is always accepted.
pub proof fn law_configurable_exception_accepted(features: Features, name: Seq<char>)
    requires
        configurable_exception(name),
    ensures
        name_fault(features, name) is None,
{
    law_interrupt_kinds_disjoint(name);
}

} // verus!
