//! Hardware bindings of the software-task passes: how the generated code pends
//! the dispatcher interrupt of a spawned task.

use vstd::prelude::*;
use vstd::string::StringExecFns;
use crate::text::{decimal, decimal_text};

verus! {

/// Path of the queue that holds ready tasks and their inputs.
pub open spec fn queue_path_code() -> Seq<char> {
    "rticx_rp2040::export::Queue"@
}

/// Body of the function that pends an interrupt on the core it is called from.
pub open spec fn local_pend_code() -> Seq<char> {
    "{ rticx_rp2040::export::NVIC::pend(irq_nbr); }"@
}

/// Body of the function that pends an interrupt on the other core.
pub open spec fn cross_pend_code() -> Seq<char> {
    "{ use rticx_rp2040::export::InterruptNumber; let _ = rticx_rp2040::export::cross_core::pend_irq(irq_nbr.number()); }"@
}

/// Body of the function that wakes an executor of `core`: the interrupt is
/// pended locally where the waking core is `core`, across cores otherwise.
pub open spec fn wake_pend_code(core: u32) -> Seq<char> {
    "{ let current_core = unsafe { (*rp2040_hal::pac::SIO::PTR).cpuid().read().bits() }; if current_core == "@
        + decimal(core as nat) + " "@ + local_pend_code() + " else "@ + cross_pend_code() + " }"@
}

/// Code that panics if the executors of `core` have overflowed its stack. Core
/// 0 is checked by the linker's stack symbols, core 1 by its stack's base; the
/// device has no other core.
pub open spec fn stack_overflow_check_code(core: u32) -> Option<Seq<char>> {
    if core == 0 {
        Some(
            "{ unsafe extern \"C\" { static _stack_start: u32; static __ebss: u32; } let stack_start = unsafe { &_stack_start as *const _ as u32 }; let ebss = unsafe { &__ebss as *const _ as u32 }; if stack_start > ebss { if rticx_rp2040::export::msp::read() <= ebss { ::core::panic!(\"Stack overflow after allocating executors (core 0)\"); } } }"@,
        )
    } else if core == 1 {
        Some(
            "{ let stack_base = unsafe { core::ptr::addr_of!(__rticx_internal_CORE1_STACK.mem) } as u32; if rticx_rp2040::export::msp::read() <= stack_base { ::core::panic!(\"Stack overflow after allocating executors (core 1)\"); } }"@,
        )
    } else {
        None
    }
}

fn local_pend() -> (r: String)
    ensures
        r@ == local_pend_code(),
{
    "{ rticx_rp2040::export::NVIC::pend(irq_nbr); }".to_owned()
}

fn cross_pend() -> (r: String)
    ensures
        r@ == cross_pend_code(),
{
    "{ use rticx_rp2040::export::InterruptNumber; let _ = rticx_rp2040::export::cross_core::pend_irq(irq_nbr.number()); }".to_owned()
}

/// Backend of the pass for software tasks.
pub struct SwPassBackendImpl;

impl SwPassBackendImpl {
    /// Path of the queue type.
    pub fn queue_path(&self) -> (r: String)
        ensures
            r@ == queue_path_code(),
    {
        "rticx_rp2040::export::Queue".to_owned()
    }

    /// Body of the core-local pending function.
    pub fn generate_local_pend_fn(&self) -> (r: String)
        ensures
            r@ == local_pend_code(),
    {
        local_pend()
    }

    /// Body of the cross-core pending function.
    pub fn generate_cross_pend_fn(&self) -> (r: Option<String>)
        ensures
            r matches Some(code) && code@ == cross_pend_code(),
    {
        Some(cross_pend())
    }
}

/// Backend of the pass for `async` software tasks.
pub struct AsyncPassBackendImpl;

impl AsyncPassBackendImpl {
    /// Path of the queue type.
    pub fn queue_path(&self) -> (r: String)
        ensures
            r@ == queue_path_code(),
    {
        "rticx_rp2040::export::Queue".to_owned()
    }

    /// Path of the async runtime.
    pub fn async_runtime_path(&self) -> (r: String)
        ensures
            r@ == "rticx_rp2040::export::async_rt"@,
    {
        "rticx_rp2040::export::async_rt".to_owned()
    }

    /// Body of the core-local pending function.
    pub fn generate_local_pend_fn(&self) -> (r: String)
        ensures
            r@ == local_pend_code(),
    {
        local_pend()
    }

    /// Body of the cross-core pending function.
    pub fn generate_cross_pend_fn(&self) -> (r: Option<String>)
        ensures
            r matches Some(code) && code@ == cross_pend_code(),
    {
        Some(cross_pend())
    }

    /// Body of the function that wakes an executor of `core`.
    pub fn generate_wake_pend_fn(&self, core: u32) -> (r: String)
        ensures
            r@ == wake_pend_code(core),
    {
        let mut out =
            "{ let current_core = unsafe { (*rp2040_hal::pac::SIO::PTR).cpuid().read().bits() }; if current_core == ".to_owned();
        out.append(decimal_text(core as u64).as_str());
        out.append(" ");
        out.append(local_pend().as_str());
        out.append(" else ");
        out.append(cross_pend().as_str());
        out.append(" }");
        out
    }

    /// Check for stack overflow at the start of the entry function of `core`.
    pub fn generate_stack_overflow_check(&self, core: u32) -> (r: Option<String>)
        ensures
            match stack_overflow_check_code(core) {
                Some(expected) => r matches Some(code) && code@ == expected,
                None => r is None,
            },
    {
        match core {
            0 => Some(
                "{ unsafe extern \"C\" { static _stack_start: u32; static __ebss: u32; } let stack_start = unsafe { &_stack_start as *const _ as u32 }; let ebss = unsafe { &__ebss as *const _ as u32 }; if stack_start > ebss { if rticx_rp2040::export::msp::read() <= ebss { ::core::panic!(\"Stack overflow after allocating executors (core 0)\"); } } }".to_owned(),
            ),
            1 => Some(
                "{ let stack_base = unsafe { core::ptr::addr_of!(__rticx_internal_CORE1_STACK.mem) } as u32; if rticx_rp2040::export::msp::read() <= stack_base { ::core::panic!(\"Stack overflow after allocating executors (core 1)\"); } }".to_owned(),
            ),
            _ => None,
        }
    }
}

/// `text` contains `part`.
pub open spec fn contains_text(text: Seq<char>, part: Seq<char>) -> bool {
    exists|i: int| 0 <= i <= text.len() - part.len() && #[trigger] text.subrange(i, i + part.len())
        == part
}

/// The body that pends across cores does so through the other core, without
/// pending on the core it runs on; the local body does the reverse.
pub proof fn law_pend_bodies()
    ensures
        contains_text(cross_pend_code(), "cross_core::pend_irq(irq_nbr.number())"@),
        !contains_text(cross_pend_code(), "NVIC::pend"@),
        contains_text(local_pend_code(), "NVIC::pend(irq_nbr)"@),
        !contains_text(local_pend_code(), "cross_core::pend_irq"@),
{
    let (cross, local) = (cross_pend_code(), local_pend_code());
    reveal_strlit(
        "{ use rticx_rp2040::export::InterruptNumber; let _ = rticx_rp2040::export::cross_core::pend_irq(irq_nbr.number()); }",
    );
    reveal_strlit("{ rticx_rp2040::export::NVIC::pend(irq_nbr); }");
    reveal_strlit("cross_core::pend_irq(irq_nbr.number())");
    reveal_strlit("cross_core::pend_irq");
    reveal_strlit("NVIC::pend(irq_nbr)");
    reveal_strlit("NVIC::pend");
    let (across, here) = ("cross_core::pend_irq(irq_nbr.number())"@, "NVIC::pend(irq_nbr)"@);
    assert(cross.subrange(75int, 75int + across.len()) =~= across);
    assert(local.subrange(24int, 24int + here.len()) =~= here);
    // no `V` in the one, no `s` in the other
    assert forall|i: int|
        0 <= i <= cross.len() - "NVIC::pend"@.len() implies #[trigger] cross.subrange(
        i,
        i + "NVIC::pend"@.len(),
    ) != "NVIC::pend"@ by {
        assert(cross[i + 1] != 'V');
        assert(cross.subrange(i, i + "NVIC::pend"@.len())[1] == cross[i + 1]);
    }
    assert forall|i: int|
        0 <= i <= local.len() - "cross_core::pend_irq"@.len() implies #[trigger] local.subrange(
        i,
        i + "cross_core::pend_irq"@.len(),
    ) != "cross_core::pend_irq"@ by {
        assert(local[i + 3] != 's');
        assert(local.subrange(i, i + "cross_core::pend_irq"@.len())[3] == local[i + 3]);
    }
}

} // verus!
