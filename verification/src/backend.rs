//! The hardware bindings of the core pass: the code that is generated for the
//! RP2040 around a user's application.

use vstd::prelude::*;
use vstd::string::StringExecFns;
use crate::attr::app_elements;
use crate::core1_stack::{
    consumed, stack_argument, PassError, PassOutput, DEFAULT_CORE1_STACK_SIZE,
    INFO_CORE1_STACK_SIZE,
};
use crate::info_bus::{bus_size, may_find, published_size};
use crate::irq::{
    binding_fault, configurable_exception, faultless_before, is_exception, task_fault, BindingError,
};
use crate::model::{AppArgs, Features, HardwareTask, SubApp, UsedIrq};
use crate::text::{decimal, decimal_text, law_decimal_injective};

verus! {

/// Backend of the core pass for the RP2040.
pub struct Rp2040Rtic {
    /// Compilation passes that the distribution is built with.
    pub features: Features,
    pub info_bus: Option<rticx_core::InfoBus>,
}

/// One statement of the interrupt set-up. An interrupt is given by its place in
/// the list of used interrupts.
#[derive(Clone, Copy, Debug, PartialEq, Eq, Structural)]
pub enum InitStmt {
    /// Take the core peripherals.
    StealPeripherals,
    /// Refuse, at compile time, a priority that the device does not have.
    AssertPriority(usize),
    /// Set the priority of an exception, in the `SCB`.
    ScbPriority(usize),
    /// Set the priority of an external interrupt, in the `NVIC`.
    NvicPriority(usize),
    /// Let an external interrupt through.
    Unmask(usize),
}

/// Names and priorities of the used interrupts.
pub open spec fn irq_views(irqs: Seq<UsedIrq>) -> Seq<(Seq<char>, u16)> {
    irqs.map_values(|u: UsedIrq| u@)
}

/// The statements that set up interrupt `i`.
pub open spec fn irq_stmts(irqs: Seq<(Seq<char>, u16)>, i: int) -> Seq<InitStmt> {
    if configurable_exception(irqs[i].0) {
        // Exceptions use the SCB and are never unmasked
        seq![InitStmt::AssertPriority(i as usize), InitStmt::ScbPriority(i as usize)]
    } else {
        // External interrupts use the NVIC and are unmasked after their priority is set
        seq![
            InitStmt::AssertPriority(i as usize),
            InitStmt::NvicPriority(i as usize),
            InitStmt::Unmask(i as usize),
        ]
    }
}

/// The statements that set up the first `n` interrupts, in order.
pub open spec fn init_stmts(irqs: Seq<(Seq<char>, u16)>, n: nat) -> Seq<InitStmt>
    decreases n,
{
    if n == 0 {
        seq![InitStmt::StealPeripherals]
    } else {
        init_stmts(irqs, (n - 1) as nat) + irq_stmts(irqs, n - 1)
    }
}

/// The code of one statement.
pub open spec fn stmt_code(
    stmt: InitStmt,
    pac: Seq<char>,
    irqs: Seq<(Seq<char>, u16)>,
) -> Seq<char> {
    match stmt {
        InitStmt::StealPeripherals =>
            "let mut core = unsafe { rticx_rp2040::export::Peripherals::steal() };\n"@,
        InitStmt::AssertPriority(i) => "const _: () = if (1usize << "@ + pac
            + "::NVIC_PRIO_BITS) < "@ + decimal(irqs[i as int].1 as nat)
            + "u16 as usize { ::core::panic!(\"Maximum priority used by interrupt vector '"@
            + irqs[i as int].0 + "' is more than supported by hardware\"); };\n"@,
        InitStmt::ScbPriority(i) =>
            "core.SCB.set_priority(rticx_rp2040::export::SystemHandler::"@ + irqs[i as int].0
            + ", rticx_rp2040::export::cortex_logical2hw("@ + decimal(irqs[i as int].1 as nat)
            + "u16 as u8, "@ + pac + "::NVIC_PRIO_BITS),);\n"@,
        InitStmt::NvicPriority(i) => "core.NVIC.set_priority("@ + pac + "::Interrupt::"@
            + irqs[i as int].0 + ", rticx_rp2040::export::cortex_logical2hw("@ + decimal(
            irqs[i as int].1 as nat,
        ) + "u16 as u8, "@ + pac + "::NVIC_PRIO_BITS),);\n"@,
        InitStmt::Unmask(i) => "rticx_rp2040::export::NVIC::unmask("@ + pac + "::Interrupt::"@
            + irqs[i as int].0 + ");\n"@,
    }
}

/// The code of a list of statements.
pub open spec fn stmts_code(
    stmts: Seq<InitStmt>,
    pac: Seq<char>,
    irqs: Seq<(Seq<char>, u16)>,
) -> Seq<char>
    decreases stmts.len(),
{
    if stmts.len() == 0 {
        Seq::empty()
    } else {
        stmts_code(stmts.drop_last(), pac, irqs) + stmt_code(stmts.last(), pac, irqs)
    }
}

/// Core `core` starts core 1: it is core 0 of an application for more than one
/// core.
pub open spec fn starts_core1(core: u32, cores: u32) -> bool {
    core == 0 && cores > 1
}

/// The code that starts core 1 at its entry function, on its own stack.
pub open spec fn spawn_core1_code(core: u32, cores: u32) -> Seq<char> {
    if starts_core1(core, cores) {
        "let core1_stack = unsafe { &mut __rticx_internal_CORE1_STACK.mem };\nrticx_rp2040::export::cross_core::init_core1(move || "@
            + entry_ident(1) + "(), core1_stack);\n"@
    } else {
        Seq::empty()
    }
}

/// The code that sets up the inter-core FIFO. Every core of an application for
/// more than one core has it where tasks can be spawned across cores.
pub open spec fn configure_fifo_code(features: Features, core: u32, cores: u32) -> Seq<char> {
    if cores > 1 && features.spec_uses_fifo() {
        "rticx_rp2040::export::cross_core::configure_fifo("@ + decimal(core as nat) + "u32 as u8)\n"@
    } else {
        Seq::empty()
    }
}

/// The code that runs on a core after initialization and before its idle loop.
pub open spec fn post_init_code(
    features: Features,
    pac: Seq<char>,
    core: u32,
    cores: u32,
    irqs: Seq<(Seq<char>, u16)>,
) -> Seq<char> {
    "unsafe {\n"@ + stmts_code(init_stmts(irqs, irqs.len()), pac, irqs) + "}\n"@
        + spawn_core1_code(core, cores) + configure_fifo_code(features, core, cores)
}

/// Every interrupt that `stmt` speaks of is one of the first `n`.
pub open spec fn stmt_in_range(stmt: InitStmt, n: nat) -> bool {
    match stmt {
        InitStmt::StealPeripherals => true,
        InitStmt::AssertPriority(i) => i < n,
        InitStmt::ScbPriority(i) => i < n,
        InitStmt::NvicPriority(i) => i < n,
        InitStmt::Unmask(i) => i < n,
    }
}

impl InitStmt {
    /// The statement's code, for the interrupts in `irqs` of the device `pac`.
    fn code(&self, pac: &String, irqs: &Vec<UsedIrq>) -> (r: String)
        requires
            stmt_in_range(*self, irqs@.len()),
        ensures
            r@ == stmt_code(*self, pac@, irq_views(irqs@)),
    {
        match *self {
            InitStmt::StealPeripherals =>
                "let mut core = unsafe { rticx_rp2040::export::Peripherals::steal() };\n".to_owned(),
            InitStmt::AssertPriority(i) => {
                let irq = &irqs[i];
                let mut out = "const _: () = if (1usize << ".to_owned();
                out.append(pac.as_str());
                out.append("::NVIC_PRIO_BITS) < ");
                out.append(decimal_text(irq.priority as u64).as_str());
                out.append(
                    "u16 as usize { ::core::panic!(\"Maximum priority used by interrupt vector '",
                );
                out.append(irq.name.as_str());
                out.append("' is more than supported by hardware\"); };\n");
                out
            },
            InitStmt::ScbPriority(i) => {
                let irq = &irqs[i];
                let mut out =
                    "core.SCB.set_priority(rticx_rp2040::export::SystemHandler::".to_owned();
                out.append(irq.name.as_str());
                out.append(", rticx_rp2040::export::cortex_logical2hw(");
                out.append(decimal_text(irq.priority as u64).as_str());
                out.append("u16 as u8, ");
                out.append(pac.as_str());
                out.append("::NVIC_PRIO_BITS),);\n");
                out
            },
            InitStmt::NvicPriority(i) => {
                let irq = &irqs[i];
                let mut out = "core.NVIC.set_priority(".to_owned();
                out.append(pac.as_str());
                out.append("::Interrupt::");
                out.append(irq.name.as_str());
                out.append(", rticx_rp2040::export::cortex_logical2hw(");
                out.append(decimal_text(irq.priority as u64).as_str());
                out.append("u16 as u8, ");
                out.append(pac.as_str());
                out.append("::NVIC_PRIO_BITS),);\n");
                out
            },
            InitStmt::Unmask(i) => {
                let mut out = "rticx_rp2040::export::NVIC::unmask(".to_owned();
                out.append(pac.as_str());
                out.append("::Interrupt::");
                out.append(irqs[i].name.as_str());
                out.append(");\n");
                out
            },
        }
    }
}

/// The statements that set up the interrupts in `irqs`: the core peripherals
/// are taken, then every interrupt gets its priority, and every external one is
/// unmasked.
pub fn interrupt_init_stmts(irqs: &Vec<UsedIrq>) -> (r: Vec<InitStmt>)
    ensures
        r@ == init_stmts(irq_views(irqs@), irqs@.len()),
        forall|k: int| 0 <= k < r@.len() ==> stmt_in_range(#[trigger] r@[k], irqs@.len()),
{
    let ghost views = irq_views(irqs@);
    let mut stmts: Vec<InitStmt> = Vec::new();
    stmts.push(InitStmt::StealPeripherals);
    assert(stmts@ =~= init_stmts(views, 0));
    let mut i: usize = 0;
    while i < irqs.len()
        invariant
            i <= irqs@.len(),
            views == irq_views(irqs@),
            stmts@ == init_stmts(views, i as nat),
            forall|k: int|
                0 <= k < stmts@.len() ==> stmt_in_range(#[trigger] stmts@[k], irqs@.len()),
        decreases irqs@.len() - i,
    {
        let ghost before = stmts@;
        stmts.push(InitStmt::AssertPriority(i));
        if is_exception(&irqs[i].name) {
            stmts.push(InitStmt::ScbPriority(i));
        } else {
            stmts.push(InitStmt::NvicPriority(i));
            stmts.push(InitStmt::Unmask(i));
        }
        assert(views[i as int].0 == irqs@[i as int].name@);
        assert(stmts@ =~= before + irq_stmts(views, i as int));
        i += 1;
    }
    stmts
}

impl Rp2040Rtic {
    /// Code that a core runs after initialization and before its idle loop:
    /// priority and mask of every used interrupt, start of core 1, set-up of the
    /// inter-core FIFO.
    pub fn post_init(
        &self,
        app_args: &AppArgs,
        sub_app: &SubApp,
        used_irqs: &Vec<UsedIrq>,
    ) -> (r: Option<String>)
        requires
            sub_app.core < app_args.pacs@.len(),
        ensures
            r matches Some(code) && code@ == post_init_code(
                self.features,
                app_args.pacs@[sub_app.core as int]@,
                sub_app.core,
                app_args.cores,
                irq_views(used_irqs@),
            ),
    {
        let pac = &app_args.pacs[sub_app.core as usize];
        let ghost views = irq_views(used_irqs@);
        let stmts = interrupt_init_stmts(used_irqs);
        let mut out = "unsafe {\n".to_owned();
        let mut body = String::new();
        let mut k: usize = 0;
        assert(stmts@.take(0) =~= Seq::<InitStmt>::empty());
        while k < stmts.len()
            invariant
                k <= stmts@.len(),
                views == irq_views(used_irqs@),
                body@ == stmts_code(stmts@.take(k as int), pac@, views),
                forall|k: int|
                    0 <= k < stmts@.len() ==> stmt_in_range(#[trigger] stmts@[k], used_irqs@.len()),
            decreases stmts@.len() - k,
        {
            assert(stmts@.take(k + 1).drop_last() =~= stmts@.take(k as int));
            let stmt = stmts[k];
            body.append(stmt.code(pac, used_irqs).as_str());
            k += 1;
        }
        assert(stmts@.take(k as int) =~= stmts@);
        out.append(body.as_str());
        out.append("}\n");
        // initialize core 1 from core 0 if the application is for multicore
        if sub_app.core == 0 && app_args.cores > 1 {
            let mut spawn =
                "let core1_stack = unsafe { &mut __rticx_internal_CORE1_STACK.mem };\nrticx_rp2040::export::cross_core::init_core1(move || ".to_owned();
            spawn.append(self.entry_name(1).as_str());
            spawn.append("(), core1_stack);\n");
            out.append(spawn.as_str());
        }
        if app_args.cores > 1 && self.features.uses_fifo() {
            let mut fifo = "rticx_rp2040::export::cross_core::configure_fifo(".to_owned();
            fifo.append(decimal_text(sub_app.core as u64).as_str());
            fifo.append("u32 as u8)\n");
            out.append(fifo.as_str());
        }
        Some(out)
    }
}

/// Names and priorities of the tasks.
pub open spec fn task_views(tasks: Seq<HardwareTask>) -> Seq<(Option<Seq<char>>, u16)> {
    tasks.map_values(|t: HardwareTask| t@)
}

/// The task is bound to an external interrupt, one that the `NVIC` controls.
pub open spec fn bound_to_nvic(task: (Option<Seq<char>>, u16)) -> bool {
    task.0 matches Some(name) && !configurable_exception(name)
}

/// The external interrupts that tasks are bound to, each with the priority of
/// its task, in task order.
pub open spec fn nvic_irqs(tasks: Seq<(Option<Seq<char>>, u16)>) -> Seq<(Seq<char>, u16)> {
    tasks.filter(|t: (Option<Seq<char>>, u16)| bound_to_nvic(t)).map_values(
        |t: (Option<Seq<char>>, u16)| (t.0->Some_0, t.1),
    )
}

/// The interrupts of one priority level, in order.
pub open spec fn level_irqs(irqs: Seq<(Seq<char>, u16)>, level: u16) -> Seq<(Seq<char>, u16)> {
    irqs.filter(|q: (Seq<char>, u16)| q.1 == level)
}

/// The interrupt numbers of `irqs`, as the elements of an array.
pub open spec fn irq_numbers_code(pac: Seq<char>, irqs: Seq<(Seq<char>, u16)>) -> Seq<char>
    decreases irqs.len(),
{
    if irqs.len() == 0 {
        Seq::empty()
    } else {
        irq_numbers_code(pac, irqs.drop_last()) + pac + "::Interrupt::"@ + irqs.last().0
            + " as u32, "@
    }
}

/// Name of the constant that holds the number of mask chunks of `core`.
pub open spec fn chunks_ident(core: u32) -> Seq<char> {
    "__rticx_internal_MASK_CHUNKS_core"@ + decimal(core as nat)
}

/// Name of the constant that holds the interrupt masks of `core`.
pub open spec fn masks_ident(core: u32) -> Seq<char> {
    "__rticx_internal_MASKS_core"@ + decimal(core as nat)
}

/// The mask of one priority level.
pub open spec fn mask_code(pac: Seq<char>, irqs: Seq<(Seq<char>, u16)>, level: u16) -> Seq<char> {
    "rticx_rp2040::export::create_mask(["@ + irq_numbers_code(pac, level_irqs(irqs, level))
        + "]),\n"@
}

/// The definition of core 1's stack of `words` 32-bit words.
pub open spec fn core1_stack_code(words: usize) -> Seq<char> {
    "#[doc(hidden)]\nstatic mut __rticx_internal_CORE1_STACK: rticx_rp2040::export::Stack<"@
        + decimal(words as nat) + "usize> = rticx_rp2040::export::Stack::new();\n"@
}

/// The definition of core 1's stack, which stands with the core that starts core
/// 1.
pub open spec fn core1_stack_def(core: u32, cores: u32, published: Option<usize>) -> Seq<char> {
    if starts_core1(core, cores) {
        core1_stack_code(
            match published {
                Some(words) => words,
                None => DEFAULT_CORE1_STACK_SIZE,
            },
        )
    } else {
        Seq::empty()
    }
}

/// The definitions that the other generated code refers to: the interrupt masks
/// of the core, one for each priority level, and the stack of core 1.
pub open spec fn global_definitions_code(
    pac: Seq<char>,
    core: u32,
    cores: u32,
    irqs: Seq<(Seq<char>, u16)>,
    published: Option<usize>,
) -> Seq<char> {
    "#[doc(hidden)]\n#[allow(non_upper_case_globals)]\nconst "@ + chunks_ident(core)
        + ": usize = rticx_rp2040::export::compute_mask_chunks(["@ + irq_numbers_code(pac, irqs)
        + "]);\n#[doc(hidden)]\n#[allow(non_upper_case_globals)]\nconst "@ + masks_ident(core)
        + ": [rticx_rp2040::export::Mask<"@ + chunks_ident(core) + ">; 3] = [\n"@ + mask_code(
        pac,
        irqs,
        1,
    ) + mask_code(pac, irqs, 2) + mask_code(pac, irqs, 3) + "];\n"@ + core1_stack_def(
        core,
        cores,
        published,
    )
}

/// The external interrupts that `tasks` are bound to.
fn nvic_tasks(tasks: &Vec<HardwareTask>) -> (r: Vec<UsedIrq>)
    ensures
        irq_views(r@) == nvic_irqs(task_views(tasks@)),
{
    let ghost views = task_views(tasks@);
    let ghost pred = |t: (Option<Seq<char>>, u16)| bound_to_nvic(t);
    let mut out: Vec<UsedIrq> = Vec::new();
    let mut i: usize = 0;
    proof {
        reveal(Seq::filter);
        assert(views.take(0) =~= Seq::empty());
        assert(irq_views(out@) =~= nvic_irqs(views.take(0)));
    }
    while i < tasks.len()
        invariant
            i <= tasks@.len(),
            views == task_views(tasks@),
            irq_views(out@) == nvic_irqs(views.take(i as int)),
        decreases tasks@.len() - i,
    {
        let ghost before = out@;
        proof {
            reveal(Seq::filter);
            assert(views.take(i + 1).drop_last() =~= views.take(i as int));
            assert(views.take(i + 1).last() == tasks@[i as int]@);
        }
        if let Some(name) = &tasks[i].binds {
            if !is_exception(name) {
                out.push(UsedIrq { name: name.clone(), priority: tasks[i].priority });
                assert(irq_views(out@) =~= irq_views(before).push(out@.last()@));
            }
        }
        proof {
            assert(irq_views(out@) =~= nvic_irqs(views.take(i + 1)));
        }
        i += 1;
    }
    assert(views.take(i as int) =~= views);
    out
}

/// The interrupts of `irqs` with priority `level`.
fn at_level(irqs: &Vec<UsedIrq>, level: u16) -> (r: Vec<UsedIrq>)
    ensures
        irq_views(r@) == level_irqs(irq_views(irqs@), level),
{
    let ghost views = irq_views(irqs@);
    let mut out: Vec<UsedIrq> = Vec::new();
    let mut i: usize = 0;
    proof {
        reveal(Seq::filter);
        assert(views.take(0) =~= Seq::empty());
        assert(irq_views(out@) =~= level_irqs(views.take(0), level));
    }
    while i < irqs.len()
        invariant
            i <= irqs@.len(),
            views == irq_views(irqs@),
            irq_views(out@) == level_irqs(views.take(i as int), level),
        decreases irqs@.len() - i,
    {
        let ghost before = out@;
        proof {
            reveal(Seq::filter);
            assert(views.take(i + 1).drop_last() =~= views.take(i as int));
            assert(views.take(i + 1).last() == irqs@[i as int]@);
        }
        if irqs[i].priority == level {
            out.push(UsedIrq { name: irqs[i].name.clone(), priority: level });
            assert(irq_views(out@) =~= irq_views(before).push(out@.last()@));
        }
        assert(irq_views(out@) =~= level_irqs(views.take(i + 1), level));
        i += 1;
    }
    assert(views.take(i as int) =~= views);
    out
}

/// The interrupt numbers of `irqs`, as the elements of an array.
fn irq_numbers(pac: &String, irqs: &Vec<UsedIrq>) -> (r: String)
    ensures
        r@ == irq_numbers_code(pac@, irq_views(irqs@)),
{
    let ghost views = irq_views(irqs@);
    let mut out = String::new();
    let mut i: usize = 0;
    assert(views.take(0) =~= Seq::empty());
    while i < irqs.len()
        invariant
            i <= irqs@.len(),
            views == irq_views(irqs@),
            out@ == irq_numbers_code(pac@, views.take(i as int)),
        decreases irqs@.len() - i,
    {
        assert(views.take(i + 1).drop_last() =~= views.take(i as int));
        assert(views.take(i + 1).last() == irqs@[i as int]@);
        out.append(pac.as_str());
        out.append("::Interrupt::");
        out.append(irqs[i].name.as_str());
        out.append(" as u32, ");
        i += 1;
    }
    assert(views.take(i as int) =~= views);
    out
}

fn mask(pac: &String, irqs: &Vec<UsedIrq>, level: u16) -> (r: String)
    ensures
        r@ == mask_code(pac@, irq_views(irqs@), level),
{
    let selected = at_level(irqs, level);
    let mut out = "rticx_rp2040::export::create_mask([".to_owned();
    out.append(irq_numbers(pac, &selected).as_str());
    out.append("]),\n");
    out
}

fn chunks_name(core: u32) -> (r: String)
    ensures
        r@ == chunks_ident(core),
{
    let mut out = "__rticx_internal_MASK_CHUNKS_core".to_owned();
    out.append(decimal_text(core as u64).as_str());
    out
}

fn masks_name(core: u32) -> (r: String)
    ensures
        r@ == masks_ident(core),
{
    let mut out = "__rticx_internal_MASKS_core".to_owned();
    out.append(decimal_text(core as u64).as_str());
    out
}

/// Definitions that are emitted once for each core: its interrupt masks,
/// grouped by priority level, and on core 0 the stack of core 1. `published` is
/// the stack size in 32-bit words that an earlier pass has left, if any.
pub fn global_definitions(
    app_args: &AppArgs,
    app_info: &SubApp,
    published: Option<usize>,
) -> (r: String)
    requires
        app_info.core < app_args.pacs@.len(),
    ensures
        r@ == global_definitions_code(
            app_args.pacs@[app_info.core as int]@,
            app_info.core,
            app_args.cores,
            nvic_irqs(task_views(app_info.tasks@)),
            published,
        ),
{
    let pac = &app_args.pacs[app_info.core as usize];
    let core = app_info.core;
    let irqs = nvic_tasks(&app_info.tasks);
    let chunks = chunks_name(core);

    let mut out = "#[doc(hidden)]\n#[allow(non_upper_case_globals)]\nconst ".to_owned();
    out.append(chunks.as_str());
    out.append(": usize = rticx_rp2040::export::compute_mask_chunks([");
    out.append(irq_numbers(pac, &irqs).as_str());
    out.append("]);\n#[doc(hidden)]\n#[allow(non_upper_case_globals)]\nconst ");
    out.append(masks_name(core).as_str());
    out.append(": [rticx_rp2040::export::Mask<");
    out.append(chunks.as_str());
    out.append(">; 3] = [\n");
    out.append(mask(pac, &irqs, 1).as_str());
    out.append(mask(pac, &irqs, 2).as_str());
    out.append(mask(pac, &irqs, 3).as_str());
    out.append("];\n");

    if core == 0 && app_args.cores > 1 {
        let words: usize = match published {
            Some(words) => words,
            None => DEFAULT_CORE1_STACK_SIZE,
        };
        let mut stack =
            "#[doc(hidden)]\nstatic mut __rticx_internal_CORE1_STACK: rticx_rp2040::export::Stack<".to_owned();
        stack.append(decimal_text(words as u64).as_str());
        stack.append("usize> = rticx_rp2040::export::Stack::new();\n");
        out.append(stack.as_str());
    }
    out
}

impl Rp2040Rtic {
    /// Definitions that are emitted once for each core. The stack size of core 1
    /// is the one on the information bus, or the default where there is none.
    pub fn generate_global_definitions(&self, app_args: &AppArgs, app_info: &SubApp) -> (r: Option<
        String,
    >)
        requires
            app_info.core < app_args.pacs@.len(),
        ensures
            r is Some,
            exists|published: Option<usize>|
                may_find(self.info_bus, INFO_CORE1_STACK_SIZE@, published) && r->Some_0@
                    == #[trigger] global_definitions_code(
                    app_args.pacs@[app_info.core as int]@,
                    app_info.core,
                    app_args.cores,
                    nvic_irqs(task_views(app_info.tasks@)),
                    published,
                ),
    {
        let published = match &self.info_bus {
            Some(bus) => published_size(bus, INFO_CORE1_STACK_SIZE),
            None => None,
        };
        Some(global_definitions(app_args, app_info, published))
    }
}

/// Name of the entry function of `core`.
pub open spec fn entry_ident(core: u32) -> Seq<char> {
    if core == 0 {
        "main"@
    } else if core == 1 {
        "core1_entry"@
    } else {
        "core"@ + decimal(core as nat) + "_entry"@
    }
}

/// The code that runs a closure on a shared resource of `core` under the masks
/// of that core.
pub open spec fn lock_code(core: u32) -> Seq<char> {
    "unsafe { rticx_rp2040::export::lock(resource_ptr, task_priority, CEILING, &"@ + masks_ident(
        core,
    ) + ", f) }"@
}

impl Rp2040Rtic {
    pub fn new(features: Features) -> (r: Self)
        ensures
            r.features == features,
            r.info_bus is None,
    {
        Rp2040Rtic { features, info_bus: None }
    }

    /// Connects the backend to the information bus.
    pub fn subscribe(&mut self, info_bus: rticx_core::InfoBus)
        ensures
            final(self).info_bus == Some(info_bus),
            final(self).features == old(self).features,
    {
        self.info_bus = Some(info_bus);
    }

    /// Body of the default idle loop: sleep until the next interrupt.
    pub fn populate_idle_loop(&self) -> (r: Option<String>)
        ensures
            r matches Some(code) && code@ == "unsafe { core::arch::asm!(\"wfi\" ); }"@,
    {
        Some("unsafe { core::arch::asm!(\"wfi\" ); }".to_owned())
    }

    /// Body of the critical-section function. Resources are never shared between
    /// cores, so a core-local critical section is enough.
    pub fn generate_interrupt_free_fn(&self) -> (r: String)
        ensures
            r@ == "{ rticx_rp2040::export::interrupt::free(|_| f()) }"@,
    {
        "{ rticx_rp2040::export::interrupt::free(|_| f()) }".to_owned()
    }

    /// Statement that enables global interrupts. There is none: interrupts are
    /// enabled at reset.
    pub fn generate_enable_global_interrupts(&self) -> (r: Option<String>)
        ensures
            r is None,
    {
        None
    }

    /// Statements that complete the body of a resource's `lock` function.
    pub fn generate_resource_proxy_lock_impl(&self, app_info: &SubApp) -> (r: String)
        ensures
            r@ == lock_code(app_info.core),
    {
        let mut out =
            "unsafe { rticx_rp2040::export::lock(resource_ptr, task_priority, CEILING, &".to_owned();
        out.append(masks_name(app_info.core).as_str());
        out.append(", f) }");
        out
    }

    /// Name of the entry function of `core`.
    pub fn entry_name(&self, core: u32) -> (r: String)
        ensures
            r@ == entry_ident(core),
    {
        match core {
            0 => "main".to_owned(),
            1 => "core1_entry".to_owned(),
            _ => {
                let mut out = "core".to_owned();
                out.append(decimal_text(core as u64).as_str());
                out.append("_entry");
                out
            },
        }
    }

    /// Code around the execution of a task. There is none: the lock does all
    /// the masking.
    pub fn wrap_task_execution(&self) -> (r: Option<String>)
        ensures
            r is None,
    {
        None
    }

    /// Checks the interrupt bindings of a whole application before any code is
    /// generated. The first task at fault, in source order, is reported.
    pub fn pre_codegen_validation(&self, sub_apps: &Vec<SubApp>) -> (r: Result<(), BindingError>)
        ensures
            match r {
                Ok(()) => faultless_before(self.features, sub_apps@, sub_apps@.len() as int, 0),
                Err(e) => {
                    &&& e.sub_app < sub_apps@.len()
                    &&& e.task < sub_apps@[e.sub_app as int].tasks@.len()
                    &&& task_fault(self.features, sub_apps@[e.sub_app as int].tasks@[e.task as int]) == Some(
                        e.fault,
                    )
                    &&& faultless_before(self.features, sub_apps@, e.sub_app as int, e.task as int)
                },
            },
    {
        let mut i: usize = 0;
        while i < sub_apps.len()
            invariant
                i <= sub_apps@.len(),
                faultless_before(self.features, sub_apps@, i as int, 0),
            decreases sub_apps@.len() - i,
        {
            let tasks = &sub_apps[i].tasks;
            let mut j: usize = 0;
            while j < tasks.len()
                invariant
                    i < sub_apps@.len(),
                    *tasks == sub_apps@[i as int].tasks,
                    j <= tasks@.len(),
                    faultless_before(self.features, sub_apps@, i as int, j as int),
                decreases tasks@.len() - j,
            {
                if let Some(fault) = binding_fault(self.features, &tasks[j]) {
                    return Err(BindingError { sub_app: i, task: j, fault });
                }
                j += 1;
            }
            i += 1;
        }
        Ok(())
    }
}

proof fn lemma_init_stmts(irqs: Seq<(Seq<char>, u16)>, n: nat)
    requires
        n <= irqs.len() <= usize::MAX,
    ensures
        init_stmts(irqs, n).len() > 0,
        init_stmts(irqs, n)[0] == InitStmt::StealPeripherals,
        forall|k: int|
            0 <= k < init_stmts(irqs, n).len() ==> stmt_ordered(irqs, init_stmts(irqs, n), k),
        forall|k: int|
            0 <= k < init_stmts(irqs, n).len() ==> stmt_in_range(
                #[trigger] init_stmts(irqs, n)[k],
                n,
            ),
        forall|i: int| 0 <= i < n ==> irq_configured(irqs, init_stmts(irqs, n), i),
    decreases n,
{
    let all = init_stmts(irqs, n);
    if n == 0 {
    } else {
        let prev = init_stmts(irqs, (n - 1) as nat);
        let step = irq_stmts(irqs, n - 1);
        lemma_init_stmts(irqs, (n - 1) as nat);
        assert(all == prev + step);
        assert forall|k: int| 0 <= k < all.len() implies stmt_ordered(irqs, all, k) by {
            if k < prev.len() {
                assert(stmt_ordered(irqs, prev, k));
                assert(all[k] == prev[k]);
                if k > 0 {
                    assert(all[k - 1] == prev[k - 1]);
                }
            } else {
                assert(all[k] == step[k - prev.len()]);
                if k > prev.len() {
                    assert(all[k - 1] == step[k - 1 - prev.len()]);
                }
            }
        }
        assert forall|k: int| 0 <= k < all.len() implies stmt_in_range(#[trigger] all[k], n) by {
            if k < prev.len() {
                assert(stmt_in_range(prev[k], (n - 1) as nat));
            } else {
                assert(all[k] == step[k - prev.len()]);
            }
        }
        assert forall|i: int| 0 <= i < n implies irq_configured(irqs, all, i) by {
            if i < n - 1 {
                assert(irq_configured(irqs, prev, i));
                assert forall|s: InitStmt| prev.contains(s) implies all.contains(s) by {
                    let k = choose|k: int| 0 <= k < prev.len() && prev[k] == s;
                    assert(all[k] == s);
                }
            } else {
                assert(all[prev.len() as int] == step[0]);
                assert(all[prev.len() as int + 1] == step[1]);
                if !configurable_exception(irqs[i].0) {
                    assert(all[prev.len() as int + 2] == step[2]);
                }
            }
        }
    }
}

/// Statement `k` stands where it may: a priority is set right after it was
/// checked, an interrupt is unmasked right after its priority was set, and no
/// exception is unmasked.
pub open spec fn stmt_ordered(
    irqs: Seq<(Seq<char>, u16)>,
    stmts: Seq<InitStmt>,
    k: int,
) -> bool {
    match stmts[k] {
        InitStmt::StealPeripherals => k == 0,
        InitStmt::AssertPriority(i) => k > 0,
        InitStmt::ScbPriority(i) => {
            &&& k > 0
            &&& stmts[k - 1] == InitStmt::AssertPriority(i)
            &&& configurable_exception(irqs[i as int].0)
        },
        InitStmt::NvicPriority(i) => {
            &&& k > 0
            &&& stmts[k - 1] == InitStmt::AssertPriority(i)
            &&& !configurable_exception(irqs[i as int].0)
        },
        InitStmt::Unmask(i) => {
            &&& k > 0
            &&& stmts[k - 1] == InitStmt::NvicPriority(i)
            &&& !configurable_exception(irqs[i as int].0)
        },
    }
}

/// Interrupt `i` is set up by `stmts`: an exception gets its priority, an
/// external interrupt gets its priority and is unmasked.
pub open spec fn irq_configured(
    irqs: Seq<(Seq<char>, u16)>,
    stmts: Seq<InitStmt>,
    i: int,
) -> bool {
    &&& stmts.contains(InitStmt::AssertPriority(i as usize))
    &&& if configurable_exception(irqs[i].0) {
        stmts.contains(InitStmt::ScbPriority(i as usize))
    } else {
        stmts.contains(InitStmt::NvicPriority(i as usize)) && stmts.contains(
            InitStmt::Unmask(i as usize),
        )
    }
}

/// Every used interrupt is set up.
pub proof fn law_every_interrupt_configured(irqs: Seq<(Seq<char>, u16)>, i: int)
    requires
        0 <= i < irqs.len() <= usize::MAX,
    ensures
        irq_configured(irqs, init_stmts(irqs, irqs.len()), i),
{
    lemma_init_stmts(irqs, irqs.len());
}

/// The peripherals are taken first, an external interrupt is unmasked only right
/// after its priority was set, and an exception is never unmasked.
pub proof fn law_unmasked_after_priority(irqs: Seq<(Seq<char>, u16)>, k: int)
    requires
        irqs.len() <= usize::MAX,
        0 <= k < init_stmts(irqs, irqs.len()).len(),
    ensures
        init_stmts(irqs, irqs.len())[0] == InitStmt::StealPeripherals,
        stmt_ordered(irqs, init_stmts(irqs, irqs.len()), k),
{
    lemma_init_stmts(irqs, irqs.len());
}

/// Every external interrupt with a priority from one to three is in the mask of
/// its own level, as often as tasks are bound to it, and in no other mask; one
/// with another priority is in no mask.
pub proof fn law_masks_partition_interrupts(irqs: Seq<(Seq<char>, u16)>, irq: (Seq<char>, u16))
    ensures
        forall|level: u16|
            (#[trigger] level_irqs(irqs, level)).to_multiset().count(irq) == if irq.1 == level {
                irqs.to_multiset().count(irq)
            } else {
                0
            },
        1 <= irq.1 <= 3 ==> level_irqs(irqs, 1).to_multiset().count(irq) + level_irqs(
            irqs,
            2,
        ).to_multiset().count(irq) + level_irqs(irqs, 3).to_multiset().count(irq)
            == irqs.to_multiset().count(irq),
{
    assert forall|level: u16|
        (#[trigger] level_irqs(irqs, level)).to_multiset().count(irq) == if irq.1 == level {
            irqs.to_multiset().count(irq)
        } else {
            0
        } by {
        lemma_level_count(irqs, level, irq);
    }
}

proof fn lemma_level_count(irqs: Seq<(Seq<char>, u16)>, level: u16, irq: (Seq<char>, u16))
    ensures
        level_irqs(irqs, level).to_multiset().count(irq) == if irq.1 == level {
            irqs.to_multiset().count(irq)
        } else {
            0
        },
    decreases irqs.len(),
{
    broadcast use vstd::seq_lib::group_to_multiset_ensures;

    reveal(Seq::filter);
    if irqs.len() > 0 {
        lemma_level_count(irqs.drop_last(), level, irq);
        assert(irqs =~= irqs.drop_last().push(irqs.last()));
    }
}

/// No exception is in the interrupt masks.
pub proof fn law_exceptions_not_masked(tasks: Seq<(Option<Seq<char>>, u16)>, i: int)
    requires
        0 <= i < nvic_irqs(tasks).len(),
    ensures
        !configurable_exception(nvic_irqs(tasks)[i].0),
{
    broadcast use vstd::seq_lib::group_filter_ensures;

    let pred = |t: (Option<Seq<char>>, u16)| bound_to_nvic(t);
    let kept = tasks.filter(pred);
    assert(nvic_irqs(tasks)[i].0 == kept[i].0->Some_0);
    assert(pred(kept[i]));
}

/// Different cores have different entry functions, and different mask
/// constants.
pub proof fn law_core_names_distinct(a: u32, b: u32)
    requires
        a != b,
    ensures
        entry_ident(a) != entry_ident(b),
        masks_ident(a) != masks_ident(b),
        chunks_ident(a) != chunks_ident(b),
{
    if a > 0 {
        lemma_core_names(a);
    }
    if b > 0 {
        lemma_core_names(b);
    }
    reveal_strlit("main");
    reveal_strlit("__rticx_internal_MASKS_core");
    reveal_strlit("__rticx_internal_MASK_CHUNKS_core");
    if decimal(a as nat) == decimal(b as nat) {
        law_decimal_injective(a as nat, b as nat);
    }
    if masks_ident(a) == masks_ident(b) {
        let n = "__rticx_internal_MASKS_core"@.len() as int;
        assert(masks_ident(a).skip(n) =~= decimal(a as nat));
        assert(masks_ident(b).skip(n) =~= decimal(b as nat));
    }
    if chunks_ident(a) == chunks_ident(b) {
        let n = "__rticx_internal_MASK_CHUNKS_core"@.len() as int;
        assert(chunks_ident(a).skip(n) =~= decimal(a as nat));
        assert(chunks_ident(b).skip(n) =~= decimal(b as nat));
    }
    if entry_ident(a) == entry_ident(b) {
        if a == 0 {
            assert(entry_ident(a)[0] == 'm');
            assert(entry_ident(b)[0] == 'c');
        } else if b == 0 {
            assert(entry_ident(b)[0] == 'm');
            assert(entry_ident(a)[0] == 'c');
        } else {
            let s = entry_ident(a);
            assert(s.subrange(4, s.len() - 6) =~= decimal(a as nat));
            assert(s.subrange(4, s.len() - 6) =~= decimal(b as nat));
        }
    }
}

proof fn lemma_core_names(core: u32)
    requires
        core > 0,
    ensures
        entry_ident(core) == "core"@ + decimal(core as nat) + "_entry"@,
        entry_ident(core)[0] == 'c',
        "core"@.len() == 4,
        "_entry"@.len() == 6,
{
    reveal_strlit("core");
    reveal_strlit("_entry");
    reveal_strlit("core1_entry");
    if core == 1 {
        assert(decimal(1) == seq!['1']);
        assert("core1_entry"@ =~= "core"@ + decimal(1) + "_entry"@);
    }
}

/// The stack of core 1 is defined exactly where core 1 is started on it.
pub proof fn law_core1_stack_defined_where_used(core: u32, cores: u32, published: Option<usize>)
    ensures
        spawn_core1_code(core, cores).len() > 0 <==> core1_stack_def(core, cores, published).len()
            > 0,
{
    reveal_strlit("(), core1_stack);\n");
    reveal_strlit("usize> = rticx_rp2040::export::Stack::new();\n");
}

/// The stack size that a successful run of the pass has taken from the arguments
/// and published is the size of the stack that is defined once the bus shows it.
pub proof fn law_published_stack_size_is_defined(
    args: proc_macro2::TokenStream,
    app_mod: syn::ItemMod,
    r: Result<PassOutput, PassError>,
    bus: rticx_core::InfoBus,
    cores: u32,
    found: Option<usize>,
)
    requires
        consumed(args, app_mod, r),
        r is Ok,
        bus_size(bus, INFO_CORE1_STACK_SIZE@) == r->Ok_0.stack_size,
        may_find(Some(bus), INFO_CORE1_STACK_SIZE@, found),
        found is Some,
        cores > 1,
    ensures
        app_elements(args) is Ok,
        stack_argument(app_elements(args)->Ok_0) is Ok,
        core1_stack_def(0, cores, found) == core1_stack_code(
            stack_argument(app_elements(args)->Ok_0)->Ok_0,
        ),
{
}

/// Without a published size the stack of core 1 has 4096 words.
pub proof fn law_default_stack_size(cores: u32)
    requires
        cores > 1,
    ensures
        core1_stack_def(0, cores, None) == core1_stack_code(4096),
{
}

/// The masks that a resource of a core is locked with are those that are defined
/// for that core.
pub proof fn law_lock_uses_defined_masks(
    pac: Seq<char>,
    core: u32,
    cores: u32,
    irqs: Seq<(Seq<char>, u16)>,
    published: Option<usize>,
)
    ensures
        exists|before: Seq<char>, after: Seq<char>|
            global_definitions_code(pac, core, cores, irqs, published) == #[trigger] (before
                + "const "@ + masks_ident(core) + ": [rticx_rp2040::export::Mask<"@ + after),
        exists|before: Seq<char>, after: Seq<char>|
            lock_code(core) == #[trigger] (before + masks_ident(core) + after),
{
    reveal_strlit("const ");
    reveal_strlit("]);\n#[doc(hidden)]\n#[allow(non_upper_case_globals)]\nconst ");
    let intro = "]);\n#[doc(hidden)]\n#[allow(non_upper_case_globals)]\nconst "@;
    let before = "#[doc(hidden)]\n#[allow(non_upper_case_globals)]\nconst "@ + chunks_ident(core)
        + ": usize = rticx_rp2040::export::compute_mask_chunks(["@ + irq_numbers_code(pac, irqs)
        + intro.take(intro.len() - 6);
    let after = chunks_ident(core) + ">; 3] = [\n"@ + mask_code(pac, irqs, 1) + mask_code(
        pac,
        irqs,
        2,
    ) + mask_code(pac, irqs, 3) + "];\n"@ + core1_stack_def(core, cores, published);
    assert(intro =~= intro.take(intro.len() - 6) + "const "@);
    assert(global_definitions_code(pac, core, cores, irqs, published) =~= before + "const "@
        + masks_ident(core) + ": [rticx_rp2040::export::Mask<"@ + after);
    assert(lock_code(core)
        == "unsafe { rticx_rp2040::export::lock(resource_ptr, task_priority, CEILING, &"@
        + masks_ident(core) + ", f) }"@);
}

} // verus!
