//! Which interrupts may be bound.

use vstd::prelude::*;
use crate::backend::Rp2040Rtic;
use crate::irq::{
    binding_fault, faultless_before, is_exception, law_interrupt_kinds_disjoint, task_fault,
    BindingError, BindingFault,
};
use crate::model::{Features, HardwareTask, SubApp};
use crate::spawn::contains_text;

verus! {

/// These eight names, and no others, are exceptions whose priority can be set.
pub proof fn law_exceptions(name: &String, r: bool)
    requires
        call_ensures(is_exception, (name,), r),
    ensures
        r <==> seq![
            "MemoryManagement"@,
            "BusFault"@,
            "UsageFault"@,
            "SecureFault"@,
            "SVCall"@,
            "DebugMonitor"@,
            "PendSV"@,
            "SysTick"@,
        ].contains(name@),
{
    let all = seq![
        "MemoryManagement"@,
        "BusFault"@,
        "UsageFault"@,
        "SecureFault"@,
        "SVCall"@,
        "DebugMonitor"@,
        "PendSV"@,
        "SysTick"@,
    ];
    assert(all[0] == "MemoryManagement"@);
    assert(all[1] == "BusFault"@);
    assert(all[2] == "UsageFault"@);
    assert(all[3] == "SecureFault"@);
    assert(all[4] == "SVCall"@);
    assert(all[5] == "DebugMonitor"@);
    assert(all[6] == "PendSV"@);
    assert(all[7] == "SysTick"@);
}

/// The interrupts of the inter-core FIFO are reserved exactly where tasks can be
/// spawned, the exceptions with fixed priority always, and a task bound to any
/// other interrupt, or to none, is never at fault.
pub proof fn law_binding_fault(features: Features, task: &HardwareTask, r: Option<BindingFault>)
    requires
        call_ensures(binding_fault, (features, task), r),
    ensures
        r == Some(BindingFault::FixedPriority) <==> {
            task.binds matches Some(name) && (name@ == "NonMaskableInt"@ || name@ == "HardFault"@)
        },
        r == Some(BindingFault::ReservedFifo) <==> {
            task.binds matches Some(name) && (name@ == "SIO_IRQ_PROC0"@ || name@
                == "SIO_IRQ_PROC1"@) && (features.swtasks || features.async_tasks)
        },
        r is None <==> match task.binds {
            None => true,
            Some(name) => {
                &&& name@ != "NonMaskableInt"@
                &&& name@ != "HardFault"@
                &&& name@ == "SIO_IRQ_PROC0"@ || name@ == "SIO_IRQ_PROC1"@ ==> !features.swtasks
                    && !features.async_tasks
            },
        },
{
    if let Some(name) = task.binds {
        law_interrupt_kinds_disjoint(name@);
    }
}

/// The priority of a task makes no difference, nor does automatic assignment; and
/// a task that is accepted where tasks can be spawned is accepted where they
/// cannot.
pub proof fn law_binding_fault_of_two(
    a: Features,
    b: Features,
    s: &HardwareTask,
    t: &HardwareTask,
    rs: Option<BindingFault>,
    rt: Option<BindingFault>,
)
    requires
        call_ensures(binding_fault, (a, s), rs),
        call_ensures(binding_fault, (b, t), rt),
        s@.0 == t@.0,
        b.swtasks || b.async_tasks ==> a.swtasks || a.async_tasks,
    ensures
        rs is None ==> rt is None,
        rt is Some ==> rs == rt,
{
}

/// A task may be bound to the interrupt `name`.
pub open spec fn may_bind(features: Features, name: Seq<char>) -> bool {
    &&& name != "NonMaskableInt"@ && name != "HardFault"@
    &&& features.swtasks || features.async_tasks ==> name != "SIO_IRQ_PROC0"@ && name
        != "SIO_IRQ_PROC1"@
}

/// An application is accepted exactly where every bound task may have its
/// interrupt. A refusal names the first task, in source order, that may not, and
/// the reason that `binding_fault` gives for it.
pub proof fn law_validation(
    backend: &Rp2040Rtic,
    sub_apps: &Vec<SubApp>,
    r: Result<(), BindingError>,
)
    requires
        call_ensures(Rp2040Rtic::pre_codegen_validation, (backend, sub_apps), r),
    ensures
        r is Ok <==> forall|i: int, j: int|
            #![trigger sub_apps@[i].tasks@[j]]
            0 <= i < sub_apps@.len() && 0 <= j < sub_apps@[i].tasks@.len() ==> (
            sub_apps@[i].tasks@[j].binds matches Some(name) ==> may_bind(
                backend.features,
                name@,
            )),
        r matches Err(e) ==> {
            &&& e.sub_app < sub_apps@.len()
            &&& e.task < sub_apps@[e.sub_app as int].tasks@.len()
            &&& sub_apps@[e.sub_app as int].tasks@[e.task as int].binds is Some
            &&& !may_bind(
                backend.features,
                sub_apps@[e.sub_app as int].tasks@[e.task as int].binds->Some_0@,
            )
            &&& forall|fault: Option<BindingFault>|
                call_ensures(
                    binding_fault,
                    (
                        backend.features,
                        &sub_apps@[e.sub_app as int].tasks@[e.task as int],
                    ),
                    fault,
                ) ==> fault == Some(e.fault)
            &&& forall|i: int, j: int|
                #![trigger sub_apps@[i].tasks@[j]]
                0 <= i <= e.sub_app && 0 <= j < sub_apps@[i].tasks@.len() && (i < e.sub_app || j
                    < e.task) ==> (sub_apps@[i].tasks@[j].binds matches Some(name) ==> may_bind(
                    backend.features,
                    name@,
                ))
        },
{
    let all = sub_apps@;
    assert forall|i: int, j: int|
        #![trigger all[i].tasks@[j]]
        0 <= i < all.len() && 0 <= j < all[i].tasks@.len() implies (task_fault(
        backend.features,
        all[i].tasks@[j],
    ) is None <==> (all[i].tasks@[j].binds matches Some(name) ==> may_bind(
        backend.features,
        name@,
    ))) by {
        if let Some(name) = all[i].tasks@[j].binds {
            law_interrupt_kinds_disjoint(name@);
        }
    }
    match r {
        Ok(_) => {
            assert(faultless_before(backend.features, all, all.len() as int, 0));
        },
        Err(e) => {
            let t = all[e.sub_app as int].tasks@[e.task as int];
            assert(task_fault(backend.features, t) == Some(e.fault));
        },
    }
}

/// The two reasons are told apart by their texts.
pub proof fn law_fault_messages(a: &BindingFault, b: &BindingFault, ra: &'static str, rb: &'static str)
    requires
        call_ensures(BindingFault::message, (a,), ra),
        call_ensures(BindingFault::message, (b,), rb),
    ensures
        ra@ == rb@ <==> a == b,
        contains_text(ra@, "exceptions with configurable priority"@) <==> *a
            == BindingFault::FixedPriority,
        contains_text(ra@, "FIFO interrupts are reserved"@) <==> *a == BindingFault::ReservedFifo,
{
    reveal_strlit("only exceptions with configurable priority can be used as hardware tasks");
    reveal_strlit(
        "FIFO interrupts are reserved by RTICX for cross-core tasks and cannot be for a hardware task",
    );
    reveal_strlit("exceptions with configurable priority");
    reveal_strlit("FIFO interrupts are reserved");
    let (fixed, fifo) = ("exceptions with configurable priority"@, "FIFO interrupts are reserved"@);
    match *a {
        BindingFault::FixedPriority => {
            assert(ra@.subrange(5int, 5int + fixed.len()) =~= fixed);
            // no `F` in this text
            assert forall|i: int| 0 <= i <= ra@.len() - fifo.len() implies #[trigger] ra@.subrange(
                i,
                i + fifo.len(),
            ) != fifo by {
                assert(ra@[i] != 'F');
                assert(ra@.subrange(i, i + fifo.len())[0] == ra@[i]);
            }
        },
        BindingFault::ReservedFifo => {
            assert(ra@.subrange(0int, 0int + fifo.len()) =~= fifo);
            // no `x` in this text
            assert forall|i: int|
                0 <= i <= ra@.len() - fixed.len() implies #[trigger] ra@.subrange(
                i,
                i + fixed.len(),
            ) != fixed by {
                assert(ra@[i + 1] != 'x');
                assert(ra@.subrange(i, i + fixed.len())[1] == ra@[i + 1]);
            }
        },
    }
    if ra@ == rb@ {
        assert(ra@.len() == rb@.len());
    }
}

/// Tasks can be spawned across cores exactly with one of the two kinds of
/// software tasks.
pub proof fn law_uses_fifo(features: &Features, r: bool)
    requires
        call_ensures(Features::uses_fifo, (features,), r),
    ensures
        r <==> features.swtasks || features.async_tasks,
{
}

} // verus!
