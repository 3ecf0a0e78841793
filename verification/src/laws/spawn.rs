//! How the generated code pends interrupts and looks after its stacks.

use vstd::prelude::*;
use crate::multitasker::line::split_first;
use crate::spawn::{
    contains_text, law_pend_bodies, AsyncPassBackendImpl, SwPassBackendImpl,
};
use crate::text::{decimal, decimal_value, law_decimal_is_digits, law_decimal_reads_back};

verus! {

/// A part that stands at place `i` of a text is contained in it.
pub proof fn lemma_contains_at(text: Seq<char>, part: Seq<char>, i: int)
    requires
        0 <= i <= text.len() - part.len(),
        forall|k: int| 0 <= k < part.len() ==> text[i + k] == #[trigger] part[k],
    ensures
        contains_text(text, part),
{
    assert(text.subrange(i, i + part.len()) =~= part);
}

/// The two passes pend interrupts alike and share the queue type.
pub proof fn law_backends_agree(
    sw: &SwPassBackendImpl,
    asy: &AsyncPassBackendImpl,
    queues: (String, String),
    locals: (String, String),
    crosses: (Option<String>, Option<String>),
)
    requires
        call_ensures(SwPassBackendImpl::queue_path, (sw,), queues.0),
        call_ensures(AsyncPassBackendImpl::queue_path, (asy,), queues.1),
        call_ensures(SwPassBackendImpl::generate_local_pend_fn, (sw,), locals.0),
        call_ensures(AsyncPassBackendImpl::generate_local_pend_fn, (asy,), locals.1),
        call_ensures(SwPassBackendImpl::generate_cross_pend_fn, (sw,), crosses.0),
        call_ensures(AsyncPassBackendImpl::generate_cross_pend_fn, (asy,), crosses.1),
    ensures
        queues.0@ == queues.1@,
        locals.0@ == locals.1@,
        crosses.0 is Some && crosses.1 is Some,
        crosses.0->Some_0@ == crosses.1->Some_0@,
{
}

/// The types that generated code names are exported by this distribution, and the
/// runtime is not the queue.
pub proof fn law_exported_paths(asy: &AsyncPassBackendImpl, queue: String, runtime: String)
    requires
        call_ensures(AsyncPassBackendImpl::queue_path, (asy,), queue),
        call_ensures(AsyncPassBackendImpl::async_runtime_path, (asy,), runtime),
    ensures
        queue@ == "rticx_rp2040::export::"@ + "Queue"@,
        runtime@ == "rticx_rp2040::export::"@ + "async_rt"@,
{
    reveal_strlit("rticx_rp2040::export::");
    reveal_strlit("Queue");
    reveal_strlit("async_rt");
    reveal_strlit("rticx_rp2040::export::Queue");
    reveal_strlit("rticx_rp2040::export::async_rt");
    assert(queue@ =~= "rticx_rp2040::export::"@ + "Queue"@);
    assert(runtime@ =~= "rticx_rp2040::export::"@ + "async_rt"@);
}

/// The local body pends on the core it runs on and nowhere else, the cross-core
/// body on the other core and nowhere else; both pend the interrupt they are
/// given.
pub proof fn law_pending(sw: &SwPassBackendImpl, local: String, cross: Option<String>)
    requires
        call_ensures(SwPassBackendImpl::generate_local_pend_fn, (sw,), local),
        call_ensures(SwPassBackendImpl::generate_cross_pend_fn, (sw,), cross),
    ensures
        cross is Some,
        contains_text(local@, "NVIC::pend(irq_nbr)"@),
        !contains_text(local@, "cross_core::pend_irq"@),
        contains_text(cross->Some_0@, "cross_core::pend_irq(irq_nbr.number())"@),
        !contains_text(cross->Some_0@, "NVIC::pend"@),
{
    law_pend_bodies();
}

/// What stands before the number of the core in a wake-up body.
pub open spec fn wake_condition() -> Seq<char> {
    "{ let current_core = unsafe { (*rp2040_hal::pac::SIO::PTR).cpuid().read().bits() }; if current_core == "@
}

/// The wake-up body of a core reads the number of the core that runs it and
/// compares it with a number that reads back as its own core. Where they are
/// equal it does what the local body does, otherwise what the cross-core body
/// does.
pub proof fn law_wake_up(
    asy: &AsyncPassBackendImpl,
    core: u32,
    wake: String,
    local: String,
    cross: Option<String>,
)
    requires
        call_ensures(AsyncPassBackendImpl::generate_wake_pend_fn, (asy, core), wake),
        call_ensures(AsyncPassBackendImpl::generate_local_pend_fn, (asy,), local),
        call_ensures(AsyncPassBackendImpl::generate_cross_pend_fn, (asy,), cross),
    ensures
        cross is Some,
        wake@.len() >= wake_condition().len(),
        wake@.take(wake_condition().len() as int) == wake_condition(),
        split_first(wake@.skip(wake_condition().len() as int), ' ') matches Some((number, branches))
            && decimal_value(number) == Some(core as nat) && branches == local@ + " else "@
            + cross->Some_0@ + " }"@,
{
    let w = wake_condition();
    let n = decimal(core as nat);
    let branches = local@ + " else "@ + cross->Some_0@ + " }"@;
    reveal_strlit(" ");
    assert(" "@ =~= seq![' ']);
    assert(wake@ =~= w + (n + seq![' '] + branches));
    assert(wake@.take(w.len() as int) =~= w);
    let rest = n + seq![' '] + branches;
    assert(wake@.skip(w.len() as int) =~= rest);
    law_decimal_is_digits(core as nat);
    law_decimal_reads_back(core as nat);
    rest.index_of_first_ensures(' ');
    assert(rest[n.len() as int] == ' ');
    let i = rest.index_of_first(' ')->Some_0;
    assert(i == n.len()) by {
        if i < n.len() {
            assert(rest[i] == n[i]);
            assert('0' <= n[i] <= '9');
        }
    }
    assert(rest.take(i) =~= n);
    assert(rest.skip(i + 1) =~= branches);
}

/// Executors of different cores are woken by different code.
pub proof fn law_wake_ups_differ(
    asy: &AsyncPassBackendImpl,
    a: u32,
    b: u32,
    ra: String,
    rb: String,
    local: String,
    cross: Option<String>,
)
    requires
        call_ensures(AsyncPassBackendImpl::generate_wake_pend_fn, (asy, a), ra),
        call_ensures(AsyncPassBackendImpl::generate_wake_pend_fn, (asy, b), rb),
        call_ensures(AsyncPassBackendImpl::generate_local_pend_fn, (asy,), local),
        call_ensures(AsyncPassBackendImpl::generate_cross_pend_fn, (asy,), cross),
    ensures
        ra@ == rb@ <==> a == b,
{
    law_wake_up(asy, a, ra, local, cross);
    law_wake_up(asy, b, rb, local, cross);
}

/// The two cores of the device, and no others, are checked for an overflow. Core
/// 0 compares its stack pointer with the end of its data where the stack lies
/// above it, core 1 with the base of the stack that is defined for it; each
/// report names its own core.
pub proof fn law_overflow_checks(asy: &AsyncPassBackendImpl, core: u32, r: Option<String>)
    requires
        call_ensures(AsyncPassBackendImpl::generate_stack_overflow_check, (asy, core), r),
    ensures
        r is Some <==> core < 2,
        core == 0 ==> {
            &&& contains_text(r->Some_0@, "let stack_start = unsafe { &_stack_start as *const _ as u32 };"@)
            &&& contains_text(r->Some_0@, "let ebss = unsafe { &__ebss as *const _ as u32 };"@)
            &&& contains_text(r->Some_0@, "if stack_start > ebss { if rticx_rp2040::export::msp::read() <= ebss { ::core::panic!("@)
            &&& contains_text(r->Some_0@, "(core 0)"@)
        },
        core == 1 ==> {
            &&& contains_text(r->Some_0@, "let stack_base = unsafe { core::ptr::addr_of!(__rticx_internal_CORE1_STACK.mem) } as u32;"@)
            &&& contains_text(r->Some_0@, "if rticx_rp2040::export::msp::read() <= stack_base { ::core::panic!("@)
            &&& contains_text(r->Some_0@, "(core 1)"@)
        },
{
    if core == 0 {
        let code = r->Some_0@;
        reveal_strlit(
            "{ unsafe extern \"C\" { static _stack_start: u32; static __ebss: u32; } let stack_start = unsafe { &_stack_start as *const _ as u32 }; let ebss = unsafe { &__ebss as *const _ as u32 }; if stack_start > ebss { if rticx_rp2040::export::msp::read() <= ebss { ::core::panic!(\"Stack overflow after allocating executors (core 0)\"); } } }",
        );
        reveal_strlit("let stack_start = unsafe { &_stack_start as *const _ as u32 };");
        lemma_contains_at(code, "let stack_start = unsafe { &_stack_start as *const _ as u32 };"@, 70);
        reveal_strlit("let ebss = unsafe { &__ebss as *const _ as u32 };");
        lemma_contains_at(code, "let ebss = unsafe { &__ebss as *const _ as u32 };"@, 133);
        reveal_strlit("if stack_start > ebss { if rticx_rp2040::export::msp::read() <= ebss { ::core::panic!(");
        lemma_contains_at(code, "if stack_start > ebss { if rticx_rp2040::export::msp::read() <= ebss { ::core::panic!("@, 183);
        reveal_strlit("(core 0)");
        lemma_contains_at(code, "(core 0)"@, 312);
    } else if core == 1 {
        let code = r->Some_0@;
        reveal_strlit(
            "{ let stack_base = unsafe { core::ptr::addr_of!(__rticx_internal_CORE1_STACK.mem) } as u32; if rticx_rp2040::export::msp::read() <= stack_base { ::core::panic!(\"Stack overflow after allocating executors (core 1)\"); } }",
        );
        reveal_strlit("let stack_base = unsafe { core::ptr::addr_of!(__rticx_internal_CORE1_STACK.mem) } as u32;");
        lemma_contains_at(code, "let stack_base = unsafe { core::ptr::addr_of!(__rticx_internal_CORE1_STACK.mem) } as u32;"@, 2);
        reveal_strlit("if rticx_rp2040::export::msp::read() <= stack_base { ::core::panic!(");
        lemma_contains_at(code, "if rticx_rp2040::export::msp::read() <= stack_base { ::core::panic!("@, 92);
        reveal_strlit("(core 1)");
        lemma_contains_at(code, "(core 1)"@, 203);
    }
}

} // verus!
