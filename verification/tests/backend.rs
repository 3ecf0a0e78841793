use proc_macro2::TokenStream;
use rticx_rp2040::backend::{
    global_definitions, interrupt_init_stmts, InitStmt, Rp2040Rtic,
};
use rticx_rp2040::irq::{is_exception, BindingFault};
use rticx_rp2040::model::{AppArgs, Features, HardwareTask, SubApp, UsedIrq};

fn tokens(code: &str) -> String {
    code.parse::<TokenStream>().expect("valid tokens").to_string()
}

fn features(swtasks: bool, async_tasks: bool) -> Features {
    Features { autoassign: false, swtasks, async_tasks }
}

fn app_args(cores: u32) -> AppArgs {
    AppArgs { pacs: vec!["rp2040_hal :: pac".to_string(), "other_pac".to_string()], cores }
}

fn task(binds: Option<&str>, priority: u16) -> HardwareTask {
    HardwareTask { binds: binds.map(|n| n.to_string()), priority }
}

fn irq(name: &str, priority: u16) -> UsedIrq {
    UsedIrq { name: name.to_string(), priority }
}

fn sub_app(core: u32, tasks: Vec<HardwareTask>) -> SubApp {
    SubApp { core, tasks }
}

#[test]
fn post_init_of_a_single_core_application() {
    let backend = Rp2040Rtic::new(features(false, true));
    let irqs = vec![irq("UART0_IRQ", 1), irq("SysTick", 3)];
    let code = backend.post_init(&app_args(1), &sub_app(0, vec![]), &irqs).unwrap();
    let expected = r#"
        unsafe {
            let mut core = unsafe { rticx_rp2040::export::Peripherals::steal() };
            const _: () = if (1usize << rp2040_hal::pac::NVIC_PRIO_BITS) < 1u16 as usize {
                ::core::panic!("Maximum priority used by interrupt vector 'UART0_IRQ' is more than supported by hardware");
            };
            core.NVIC.set_priority(
                rp2040_hal::pac::Interrupt::UART0_IRQ,
                rticx_rp2040::export::cortex_logical2hw(1u16 as u8, rp2040_hal::pac::NVIC_PRIO_BITS),
            );
            rticx_rp2040::export::NVIC::unmask(rp2040_hal::pac::Interrupt::UART0_IRQ);
            const _: () = if (1usize << rp2040_hal::pac::NVIC_PRIO_BITS) < 3u16 as usize {
                ::core::panic!("Maximum priority used by interrupt vector 'SysTick' is more than supported by hardware");
            };
            core.SCB.set_priority(
                rticx_rp2040::export::SystemHandler::SysTick,
                rticx_rp2040::export::cortex_logical2hw(3u16 as u8, rp2040_hal::pac::NVIC_PRIO_BITS),
            );
        }
    "#;
    assert_eq!(tokens(&code), tokens(expected));
}

#[test]
fn post_init_starts_core_1_and_the_fifo() {
    let backend = Rp2040Rtic::new(features(true, false));
    let code = backend.post_init(&app_args(2), &sub_app(0, vec![]), &vec![]).unwrap();
    let expected = r#"
        unsafe {
            let mut core = unsafe { rticx_rp2040::export::Peripherals::steal() };
        }
        let core1_stack = unsafe { &mut __rticx_internal_CORE1_STACK.mem };
        rticx_rp2040::export::cross_core::init_core1(move || core1_entry(), core1_stack);
        rticx_rp2040::export::cross_core::configure_fifo(0u32 as u8)
    "#;
    assert_eq!(tokens(&code), tokens(expected));

    let code = backend.post_init(&app_args(2), &sub_app(1, vec![]), &vec![]).unwrap();
    let expected = r#"
        unsafe {
            let mut core = unsafe { rticx_rp2040::export::Peripherals::steal() };
        }
        rticx_rp2040::export::cross_core::configure_fifo(1u32 as u8)
    "#;
    assert_eq!(tokens(&code), tokens(expected));
}

#[test]
fn post_init_without_software_tasks_leaves_the_fifo_alone() {
    let backend = Rp2040Rtic::new(features(false, false));
    let code = backend.post_init(&app_args(2), &sub_app(1, vec![]), &vec![irq("PWM", 2)]).unwrap();
    assert!(!code.contains("configure_fifo"));
    assert!(!code.contains("init_core1"));
    assert!(code.contains("other_pac::Interrupt::PWM"));
}

#[test]
fn interrupts_are_unmasked_after_their_priority() {
    let stmts = interrupt_init_stmts(&vec![irq("PendSV", 1), irq("DMA_IRQ_0", 2)]);
    assert_eq!(
        stmts,
        vec![
            InitStmt::StealPeripherals,
            InitStmt::AssertPriority(0),
            InitStmt::ScbPriority(0),
            InitStmt::AssertPriority(1),
            InitStmt::NvicPriority(1),
            InitStmt::Unmask(1),
        ]
    );
}

#[test]
fn global_definitions_group_interrupts_by_priority() {
    let tasks = vec![
        task(Some("UART0_IRQ"), 1),
        task(Some("SysTick"), 2),
        task(None, 2),
        task(Some("TIMER_IRQ_0"), 2),
        task(Some("DMA_IRQ_0"), 1),
        task(Some("PWM"), 4),
        task(Some("ADC"), 0),
    ];
    let code = global_definitions(&app_args(2), &sub_app(0, tasks), Some(2048));
    let expected = r#"
        #[doc(hidden)]
        #[allow(non_upper_case_globals)]
        const __rticx_internal_MASK_CHUNKS_core0: usize = rticx_rp2040::export::compute_mask_chunks([
            rp2040_hal::pac::Interrupt::UART0_IRQ as u32,
            rp2040_hal::pac::Interrupt::TIMER_IRQ_0 as u32,
            rp2040_hal::pac::Interrupt::DMA_IRQ_0 as u32,
            rp2040_hal::pac::Interrupt::PWM as u32,
            rp2040_hal::pac::Interrupt::ADC as u32,
        ]);

        #[doc(hidden)]
        #[allow(non_upper_case_globals)]
        const __rticx_internal_MASKS_core0: [rticx_rp2040::export::Mask<__rticx_internal_MASK_CHUNKS_core0>; 3] = [
            rticx_rp2040::export::create_mask([
                rp2040_hal::pac::Interrupt::UART0_IRQ as u32,
                rp2040_hal::pac::Interrupt::DMA_IRQ_0 as u32,
            ]),
            rticx_rp2040::export::create_mask([
                rp2040_hal::pac::Interrupt::TIMER_IRQ_0 as u32,
            ]),
            rticx_rp2040::export::create_mask([]),
        ];

        #[doc(hidden)]
        static mut __rticx_internal_CORE1_STACK: rticx_rp2040::export::Stack<2048usize> =
            rticx_rp2040::export::Stack::new();
    "#;
    assert_eq!(tokens(&code), tokens(expected));
}

#[test]
fn only_core_0_of_two_defines_the_stack() {
    for (core, cores, defined) in [(0, 1, false), (0, 2, true), (1, 2, false)] {
        let code = global_definitions(&app_args(cores), &sub_app(core, vec![]), None);
        assert_eq!(code.contains("Stack<4096usize>"), defined);
    }
}

#[test]
fn default_stack_without_a_bus() {
    let backend = Rp2040Rtic::new(features(false, false));
    let code = backend.generate_global_definitions(&app_args(2), &sub_app(0, vec![])).unwrap();
    assert!(code.contains("Stack<4096usize>"));
}

#[test]
fn lock_uses_the_masks_of_its_core() {
    let backend = Rp2040Rtic::new(features(false, false));
    let code = backend.generate_resource_proxy_lock_impl(&sub_app(1, vec![]));
    assert_eq!(
        tokens(&code),
        tokens("unsafe { rticx_rp2040::export::lock(resource_ptr, task_priority, CEILING, &__rticx_internal_MASKS_core1, f) }")
    );
    let definitions = global_definitions(&app_args(2), &sub_app(1, vec![]), None);
    assert!(definitions.contains("const __rticx_internal_MASKS_core1:"));
}

#[test]
fn entry_names() {
    let backend = Rp2040Rtic::new(features(false, false));
    assert_eq!(backend.entry_name(0), "main");
    assert_eq!(backend.entry_name(1), "core1_entry");
    assert_eq!(backend.entry_name(2), "core2_entry");
    assert_eq!(backend.entry_name(u32::MAX), "core4294967295_entry");
}

#[test]
fn constant_bodies() {
    let backend = Rp2040Rtic::new(features(false, false));
    assert_eq!(
        tokens(&backend.populate_idle_loop().unwrap()),
        tokens("unsafe { core::arch::asm!(\"wfi\" ); }")
    );
    assert_eq!(
        tokens(&backend.generate_interrupt_free_fn()),
        tokens("{ rticx_rp2040::export::interrupt::free(|_| f()) }")
    );
    assert!(backend.generate_enable_global_interrupts().is_none());
    assert!(backend.wrap_task_execution().is_none());
}

#[test]
fn bodies_parse_as_blocks() {
    let backend = Rp2040Rtic::new(features(false, false));
    assert!(syn::parse_str::<syn::Block>(&backend.generate_interrupt_free_fn()).is_ok());
    let lock = backend.generate_resource_proxy_lock_impl(&sub_app(0, vec![]));
    assert!(syn::parse_str::<syn::Block>(&format!("{{ {lock} }}")).is_ok());
}

#[test]
fn exceptions() {
    for name in [
        "MemoryManagement",
        "BusFault",
        "UsageFault",
        "SecureFault",
        "SVCall",
        "DebugMonitor",
        "PendSV",
        "SysTick",
    ] {
        assert!(is_exception(&name.to_string()));
    }
    for name in ["NonMaskableInt", "HardFault", "SIO_IRQ_PROC0", "UART0_IRQ", "systick", ""] {
        assert!(!is_exception(&name.to_string()));
    }
}

#[test]
fn fixed_priority_exceptions_are_refused() {
    let backend = Rp2040Rtic::new(features(false, false));
    let apps = vec![
        sub_app(0, vec![task(Some("SysTick"), 1), task(None, 1)]),
        sub_app(1, vec![task(Some("PWM"), 1), task(Some("HardFault"), 1), task(Some("NonMaskableInt"), 1)]),
    ];
    let e = backend.pre_codegen_validation(&apps).unwrap_err();
    assert_eq!((e.sub_app, e.task, e.fault), (1, 1, BindingFault::FixedPriority));
    assert_eq!(
        e.fault.message(),
        "only exceptions with configurable priority can be used as hardware tasks"
    );
}

#[test]
fn fifo_interrupts_are_reserved_for_software_tasks() {
    let apps = vec![sub_app(0, vec![task(Some("SIO_IRQ_PROC0"), 1)])];
    assert!(Rp2040Rtic::new(features(false, false)).pre_codegen_validation(&apps).is_ok());
    for backend in [Rp2040Rtic::new(features(true, false)), Rp2040Rtic::new(features(false, true))] {
        let e = backend.pre_codegen_validation(&apps).unwrap_err();
        assert_eq!((e.sub_app, e.task, e.fault), (0, 0, BindingFault::ReservedFifo));
        assert_eq!(
            e.fault.message(),
            "FIFO interrupts are reserved by RTICX for cross-core tasks and cannot be for a hardware task"
        );
    }
}
