use proc_macro2::TokenStream;
use rticx_rp2040::model::Features;
use rticx_rp2040::passes::{app, Pass};
use rticx_rp2040::spawn::{AsyncPassBackendImpl, SwPassBackendImpl};

fn tokens(code: &str) -> String {
    code.parse::<TokenStream>().expect("valid tokens").to_string()
}

#[test]
fn paths() {
    assert_eq!(SwPassBackendImpl.queue_path(), "rticx_rp2040::export::Queue");
    assert_eq!(AsyncPassBackendImpl.queue_path(), "rticx_rp2040::export::Queue");
    assert_eq!(AsyncPassBackendImpl.async_runtime_path(), "rticx_rp2040::export::async_rt");
    assert!(syn::parse_str::<syn::Path>(&AsyncPassBackendImpl.async_runtime_path()).is_ok());
}

#[test]
fn pend_bodies() {
    let local = "{ rticx_rp2040::export::NVIC::pend(irq_nbr); }";
    let cross = r#"{
        use rticx_rp2040::export::InterruptNumber;
        let _ = rticx_rp2040::export::cross_core::pend_irq(irq_nbr.number());
    }"#;
    assert_eq!(tokens(&SwPassBackendImpl.generate_local_pend_fn()), tokens(local));
    assert_eq!(tokens(&AsyncPassBackendImpl.generate_local_pend_fn()), tokens(local));
    assert_eq!(tokens(&SwPassBackendImpl.generate_cross_pend_fn().unwrap()), tokens(cross));
    assert_eq!(tokens(&AsyncPassBackendImpl.generate_cross_pend_fn().unwrap()), tokens(cross));
}

#[test]
fn wake_body_checks_the_core() {
    let expected = r#"{
        let current_core = unsafe { (*rp2040_hal::pac::SIO::PTR).cpuid().read().bits() };
        if current_core == 1 {
            rticx_rp2040::export::NVIC::pend(irq_nbr);
        } else {
            use rticx_rp2040::export::InterruptNumber;
            let _ = rticx_rp2040::export::cross_core::pend_irq(irq_nbr.number());
        }
    }"#;
    let code = AsyncPassBackendImpl.generate_wake_pend_fn(1);
    assert_eq!(tokens(&code), tokens(expected));
    assert!(syn::parse_str::<syn::Block>(&code).is_ok());
}

#[test]
fn stack_overflow_checks() {
    let core0 = r#"{
        unsafe extern "C" {
            static _stack_start: u32;
            static __ebss: u32;
        }
        let stack_start = unsafe { &_stack_start as *const _ as u32 };
        let ebss = unsafe { &__ebss as *const _ as u32 };
        if stack_start > ebss {
            if rticx_rp2040::export::msp::read() <= ebss {
                ::core::panic!("Stack overflow after allocating executors (core 0)");
            }
        }
    }"#;
    let core1 = r#"{
        let stack_base =
            unsafe { core::ptr::addr_of!(__rticx_internal_CORE1_STACK.mem) } as u32;
        if rticx_rp2040::export::msp::read() <= stack_base {
            ::core::panic!("Stack overflow after allocating executors (core 1)");
        }
    }"#;
    let backend = AsyncPassBackendImpl;
    assert_eq!(tokens(&backend.generate_stack_overflow_check(0).unwrap()), tokens(core0));
    assert_eq!(tokens(&backend.generate_stack_overflow_check(1).unwrap()), tokens(core1));
    assert!(backend.generate_stack_overflow_check(2).is_none());
}

#[test]
fn passes_run_in_order() {
    let with = |autoassign, swtasks, async_tasks| app(Features { autoassign, swtasks, async_tasks });
    assert_eq!(with(false, false, false), Ok(vec![Pass::Core1Stack]));
    assert_eq!(
        with(true, true, false),
        Ok(vec![Pass::Core1Stack, Pass::AutoAssign, Pass::Software])
    );
    assert_eq!(with(true, false, true), Ok(vec![Pass::Core1Stack, Pass::AutoAssign, Pass::Async]));
    assert_eq!(with(false, false, true), Ok(vec![Pass::Core1Stack, Pass::Async]));
}

#[test]
fn software_and_async_tasks_exclude_each_other() {
    for autoassign in [false, true] {
        let conflict = app(Features { autoassign, swtasks: true, async_tasks: true }).unwrap_err();
        assert_eq!(
            conflict.message(),
            "rticx-rp2040-macro: the `swtasks` and `async` features are mutually exclusive; enable at most one"
        );
    }
}
