//! What is defined for a core, and how resources are locked with it.

use vstd::prelude::*;
use crate::backend::{
    bound_to_nvic, global_definitions, irq_numbers_code, level_irqs, mask_code, nvic_irqs,
    task_views, Rp2040Rtic,
};
use crate::info_bus::{bus_gave, bus_size};
use crate::irq::configurable_exception;
use crate::model::{AppArgs, HardwareTask, SubApp};
use crate::spawn::contains_text;
use crate::text::decimal;
use super::backend::{lemma_contains, lemma_flatten_part};
use super::spawn::lemma_contains_at;
use super::text::lemma_number_ends;

verus! {

/// The task is bound to an interrupt that is no exception.
pub open spec fn external(task: HardwareTask) -> bool {
    task.binds is Some && !configurable_exception(task.binds->Some_0@)
}

/// The number of the interrupt that a task is bound to, as an array element.
pub open spec fn element(pac: Seq<char>, task: HardwareTask) -> Seq<char> {
    pac + "::Interrupt::"@ + task.binds->Some_0@ + " as u32, "@
}

/// The elements of all external interrupts of `tasks`, in order.
pub open spec fn all_elements(pac: Seq<char>, tasks: Seq<HardwareTask>) -> Seq<char> {
    tasks.filter(|t: HardwareTask| external(t)).map_values(
        |t: HardwareTask| element(pac, t),
    ).flatten()
}

/// The elements of the external interrupts with one priority, in order.
pub open spec fn level_elements(
    pac: Seq<char>,
    tasks: Seq<HardwareTask>,
    level: u16,
) -> Seq<char> {
    tasks.filter(|t: HardwareTask| external(t) && t.priority == level).map_values(
        |t: HardwareTask| element(pac, t),
    ).flatten()
}

/// The mask that is made of array elements.
pub open spec fn mask_of(elements: Seq<char>) -> Seq<char> {
    "rticx_rp2040::export::create_mask(["@ + elements + "]),\n"@
}

/// Name of the constant that holds the masks of `core`.
pub open spec fn masks_constant(core: u32) -> Seq<char> {
    "__rticx_internal_MASKS_core"@ + decimal(core as nat)
}

/// The definition of the masks of `core`: from all its interrupts the size of a
/// mask, and then one mask for each of the three levels.
pub open spec fn masks_definition(
    core: u32,
    all: Seq<char>,
    first: Seq<char>,
    second: Seq<char>,
    third: Seq<char>,
) -> Seq<char> {
    let chunks = "__rticx_internal_MASK_CHUNKS_core"@ + decimal(core as nat);
    "#[doc(hidden)]\n#[allow(non_upper_case_globals)]\nconst "@ + chunks
        + ": usize = rticx_rp2040::export::compute_mask_chunks(["@ + all
        + "]);\n#[doc(hidden)]\n#[allow(non_upper_case_globals)]\nconst "@ + masks_constant(core)
        + ": [rticx_rp2040::export::Mask<"@ + chunks + ">; 3] = [\n"@ + mask_of(first) + mask_of(
        second,
    ) + mask_of(third) + "];\n"@
}

/// The definition of a stack of `words` 32-bit words for core 1.
pub open spec fn stack_definition(words: usize) -> Seq<char> {
    "#[doc(hidden)]\nstatic mut __rticx_internal_CORE1_STACK: rticx_rp2040::export::Stack<"@
        + decimal(words as nat) + "usize> = rticx_rp2040::export::Stack::new();\n"@
}

proof fn lemma_numbers_push(pac: Seq<char>, irqs: Seq<(Seq<char>, u16)>, irq: (Seq<char>, u16))
    ensures
        irq_numbers_code(pac, irqs.push(irq)) == irq_numbers_code(pac, irqs) + (pac
            + "::Interrupt::"@ + irq.0 + " as u32, "@),
{
    assert(irqs.push(irq).drop_last() =~= irqs);
    assert(irq_numbers_code(pac, irqs.push(irq)) =~= irq_numbers_code(pac, irqs) + (pac
        + "::Interrupt::"@ + irq.0 + " as u32, "@));
}

proof fn lemma_elements(pac: Seq<char>, tasks: Seq<HardwareTask>, level: u16)
    ensures
        irq_numbers_code(pac, nvic_irqs(task_views(tasks))) == all_elements(pac, tasks),
        irq_numbers_code(pac, level_irqs(nvic_irqs(task_views(tasks)), level)) == level_elements(
            pac,
            tasks,
            level,
        ),
    decreases tasks.len(),
{
    reveal(Seq::filter);
    let views = task_views(tasks);
    let irqs = nvic_irqs(views);
    let f = |t: HardwareTask| element(pac, t);
    let p = |t: HardwareTask| external(t);
    let q = |t: HardwareTask| external(t) && t.priority == level;
    if tasks.len() == 0 {
        assert(views =~= Seq::empty());
        assert(irqs =~= Seq::empty());
        assert(level_irqs(irqs, level) =~= Seq::empty());
        assert(tasks.filter(p).map_values(f) =~= Seq::empty());
        assert(tasks.filter(q).map_values(f) =~= Seq::empty());
    } else {
        let front = tasks.drop_last();
        let t = tasks.last();
        lemma_elements(pac, front, level);
        assert(views.drop_last() =~= task_views(front));
        assert(views.last() == t@);
        let before = nvic_irqs(task_views(front));
        assert(bound_to_nvic(t@) == external(t));
        if external(t) {
            let irq = (t.binds->Some_0@, t.priority);
            assert(irqs =~= before.push(irq));
            lemma_numbers_push(pac, before, irq);
            assert(tasks.filter(p).map_values(f) =~= front.filter(p).map_values(f).push(
                element(pac, t),
            ));
            front.filter(p).map_values(f).lemma_flatten_push(element(pac, t));
            assert(before.push(irq).drop_last() =~= before);
            if t.priority == level {
                assert(level_irqs(irqs, level) =~= level_irqs(before, level).push(irq));
                lemma_numbers_push(pac, level_irqs(before, level), irq);
                assert(tasks.filter(q).map_values(f) =~= front.filter(q).map_values(f).push(
                    element(pac, t),
                ));
                front.filter(q).map_values(f).lemma_flatten_push(element(pac, t));
            } else {
                assert(level_irqs(irqs, level) =~= level_irqs(before, level));
                assert(tasks.filter(q) =~= front.filter(q));
            }
        } else {
            assert(irqs =~= before);
            assert(tasks.filter(p) =~= front.filter(p));
            assert(tasks.filter(q) =~= front.filter(q));
        }
    }
}

/// The masks of a core are made of the numbers of exactly its external
/// interrupts: the mask of each level from those with that priority. Core 0 of
/// several also defines the stack of core 1, with the published size or 4096
/// words.
pub proof fn law_global_definitions(
    args: &AppArgs,
    sub_app: &SubApp,
    published: Option<usize>,
    r: String,
)
    requires
        sub_app.core < args.pacs@.len(),
        call_ensures(global_definitions, (args, sub_app, published), r),
    ensures
        ({
            let pac = args.pacs@[sub_app.core as int]@;
            let tasks = sub_app.tasks@;
            r@ == masks_definition(
                sub_app.core,
                all_elements(pac, tasks),
                level_elements(pac, tasks, 1),
                level_elements(pac, tasks, 2),
                level_elements(pac, tasks, 3),
            ) + (if sub_app.core == 0 && args.cores > 1 {
                stack_definition(
                    match published {
                        Some(words) => words,
                        None => 4096,
                    },
                )
            } else {
                Seq::empty()
            })
        }),
{
    let pac = args.pacs@[sub_app.core as int]@;
    let tasks = sub_app.tasks@;
    lemma_elements(pac, tasks, 1);
    lemma_elements(pac, tasks, 2);
    lemma_elements(pac, tasks, 3);
    let irqs = nvic_irqs(task_views(tasks));
    assert(mask_code(pac, irqs, 1) == mask_of(level_elements(pac, tasks, 1)));
    assert(mask_code(pac, irqs, 2) == mask_of(level_elements(pac, tasks, 2)));
    assert(mask_code(pac, irqs, 3) == mask_of(level_elements(pac, tasks, 3)));
}

proof fn lemma_filtered_part(
    tasks: Seq<HardwareTask>,
    keep: spec_fn(HardwareTask) -> bool,
    f: spec_fn(HardwareTask) -> Seq<char>,
    i: int,
)
    requires
        0 <= i < tasks.len(),
        keep(tasks[i]),
    ensures
        contains_text(tasks.filter(keep).map_values(f).flatten(), f(tasks[i])),
{
    broadcast use vstd::seq_lib::group_filter_ensures;

    let kept = tasks.filter(keep);
    assert(tasks.contains(tasks[i]));
    assert(kept.contains(tasks[i]));
    let k = choose|k: int| 0 <= k < kept.len() && kept[k] == tasks[i];
    let parts = kept.map_values(f);
    assert(parts[k] == f(tasks[i]));
    lemma_flatten_part(parts, k);
    lemma_contains(parts.take(k).flatten(), parts[k], parts.skip(k + 1).flatten());
}

/// Every external interrupt with a priority from one to three is in the emitted
/// mask of its own level, and every external interrupt counts for the size of the
/// masks. The three masks stand in the order of their levels.
pub proof fn law_every_interrupt_is_masked(
    args: &AppArgs,
    sub_app: &SubApp,
    published: Option<usize>,
    r: String,
    i: int,
)
    requires
        sub_app.core < args.pacs@.len(),
        call_ensures(global_definitions, (args, sub_app, published), r),
        0 <= i < sub_app.tasks@.len(),
        external(sub_app.tasks@[i]),
    ensures
        exists|all: Seq<char>, first: Seq<char>, second: Seq<char>, third: Seq<char>|
            {
                let pac = args.pacs@[sub_app.core as int]@;
                let task = sub_app.tasks@[i];
                let number = pac + "::Interrupt::"@ + task.binds->Some_0@ + " as u32, "@;
                &&& r@.len() >= masks_definition(sub_app.core, all, first, second, third).len()
                &&& r@.take(
                    masks_definition(sub_app.core, all, first, second, third).len() as int,
                ) == #[trigger] masks_definition(sub_app.core, all, first, second, third)
                &&& contains_text(all, number)
                &&& task.priority == 1 ==> contains_text(first, number)
                &&& task.priority == 2 ==> contains_text(second, number)
                &&& task.priority == 3 ==> contains_text(third, number)
            },
{
    law_global_definitions(args, sub_app, published, r);
    let pac = args.pacs@[sub_app.core as int]@;
    let tasks = sub_app.tasks@;
    let f = |t: HardwareTask| element(pac, t);
    lemma_filtered_part(tasks, |t: HardwareTask| external(t), f, i);
    let level = tasks[i].priority;
    lemma_filtered_part(tasks, |t: HardwareTask| external(t) && t.priority == level, f, i);
    assert(contains_text(level_elements(pac, tasks, level), element(pac, tasks[i])));
    let whole = masks_definition(
        sub_app.core,
        all_elements(pac, tasks),
        level_elements(pac, tasks, 1),
        level_elements(pac, tasks, 2),
        level_elements(pac, tasks, 3),
    );
    assert(r@.take(whole.len() as int) =~= whole);
}

/// A task that is bound to an exception, or to nothing, leaves the definitions as
/// they are, wherever it stands; and so does everything about a task but its
/// binding and its priority.
pub proof fn law_only_external_interrupts_count(
    args: &AppArgs,
    a: &SubApp,
    b: &SubApp,
    published: Option<usize>,
    ra: String,
    rb: String,
)
    requires
        a.core < args.pacs@.len(),
        a.core == b.core,
        a.tasks@.filter(|t: HardwareTask| external(t)) == b.tasks@.filter(
            |t: HardwareTask| external(t),
        ),
        call_ensures(global_definitions, (args, a, published), ra),
        call_ensures(global_definitions, (args, b, published), rb),
    ensures
        ra@ == rb@,
{
    law_global_definitions(args, a, published, ra);
    law_global_definitions(args, b, published, rb);
    let pac = args.pacs@[a.core as int]@;
    lemma_filter_twice(a.tasks@, 1);
    lemma_filter_twice(a.tasks@, 2);
    lemma_filter_twice(a.tasks@, 3);
    lemma_filter_twice(b.tasks@, 1);
    lemma_filter_twice(b.tasks@, 2);
    lemma_filter_twice(b.tasks@, 3);
}

proof fn lemma_filter_twice(tasks: Seq<HardwareTask>, level: u16)
    ensures
        tasks.filter(|t: HardwareTask| external(t)).filter(
            |t: HardwareTask| external(t) && t.priority == level,
        ) == tasks.filter(|t: HardwareTask| external(t) && t.priority == level),
    decreases tasks.len(),
{
    reveal(Seq::filter);
    let p = |t: HardwareTask| external(t);
    let q = |t: HardwareTask| external(t) && t.priority == level;
    if tasks.len() > 0 {
        lemma_filter_twice(tasks.drop_last(), level);
        if external(tasks.last()) {
            let front = tasks.drop_last().filter(p);
            assert(tasks.filter(p) == front.push(tasks.last()));
            assert(front.push(tasks.last()).drop_last() =~= front);
        }
    }
}

/// Only the stack of core 1 depends on the number of cores and on the published
/// size: on core 0 of several it follows the masks, and elsewhere there is none.
pub proof fn law_stack_follows_masks(
    a: &AppArgs,
    b: &AppArgs,
    sub_app: &SubApp,
    pa: Option<usize>,
    pb: Option<usize>,
    ra: String,
    rb: String,
)
    requires
        sub_app.core < a.pacs@.len() && sub_app.core < b.pacs@.len(),
        a.pacs@[sub_app.core as int]@ == b.pacs@[sub_app.core as int]@,
        a.cores <= 1,
        call_ensures(global_definitions, (a, sub_app, pa), ra),
        call_ensures(global_definitions, (b, sub_app, pb), rb),
    ensures
        sub_app.core == 0 && b.cores > 1 ==> rb@ == ra@ + stack_definition(
            if pb is Some {
                pb->Some_0
            } else {
                4096
            },
        ),
        sub_app.core != 0 || b.cores <= 1 ==> rb@ == ra@,
{
    law_global_definitions(a, sub_app, pa, ra);
    law_global_definitions(b, sub_app, pb, rb);
    assert(ra@ =~= ra@ + Seq::empty());
}

/// Different sizes define different stacks, and a stack tells its size.
pub proof fn law_stack_tells_its_size(a: usize, b: usize)
    requires
        stack_definition(a) == stack_definition(b),
    ensures
        a == b,
{
    let head =
        "#[doc(hidden)]\nstatic mut __rticx_internal_CORE1_STACK: rticx_rp2040::export::Stack<"@;
    let tail = "usize> = rticx_rp2040::export::Stack::new();\n"@;
    reveal_strlit("usize> = rticx_rp2040::export::Stack::new();\n");
    assert(stack_definition(a).skip(head.len() as int) =~= decimal(a as nat) + tail);
    assert(stack_definition(b).skip(head.len() as int) =~= decimal(b as nat) + tail);
    lemma_number_ends(a as nat, b as nat, tail, tail);
}

/// The backend defines what is defined for the size that a look at its bus gives,
/// and without a bus what is defined for no size.
pub proof fn law_backend_definitions(
    backend: &Rp2040Rtic,
    args: &AppArgs,
    sub_app: &SubApp,
    r: Option<String>,
)
    requires
        sub_app.core < args.pacs@.len(),
        call_ensures(Rp2040Rtic::generate_global_definitions, (backend, args, sub_app), r),
    ensures
        r is Some,
        backend.info_bus matches Some(bus) ==> exists|found: Option<usize>|
            {
                &&& #[trigger] bus_gave(bus, "rticx_rp2040_core1_stack::StackSize"@, found)
                &&& found is Some ==> found->Some_0 == bus_size(
                    bus,
                    "rticx_rp2040_core1_stack::StackSize"@,
                )
                &&& forall|g: String|
                    call_ensures(global_definitions, (args, sub_app, found), g) ==> g@
                        == r->Some_0@
            },
        backend.info_bus is None ==> forall|g: String|
            call_ensures(global_definitions, (args, sub_app, None), g) ==> g@ == r->Some_0@,
{
}

/// A resource is locked with the masks of its own core, the very constant that is
/// defined for it.
pub proof fn law_lock(
    backend: &Rp2040Rtic,
    args: &AppArgs,
    sub_app: &SubApp,
    published: Option<usize>,
    lock: String,
    definitions: String,
)
    requires
        sub_app.core < args.pacs@.len(),
        call_ensures(Rp2040Rtic::generate_resource_proxy_lock_impl, (backend, sub_app), lock),
        call_ensures(global_definitions, (args, sub_app, published), definitions),
    ensures
        lock@ == "unsafe { rticx_rp2040::export::lock(resource_ptr, task_priority, CEILING, &"@
            + masks_constant(sub_app.core) + ", f) }"@,
        contains_text(
            definitions@,
            masks_constant(sub_app.core) + ": [rticx_rp2040::export::Mask<"@,
        ),
{
    law_global_definitions(args, sub_app, published, definitions);
    let pac = args.pacs@[sub_app.core as int]@;
    let name = masks_constant(sub_app.core) + ": [rticx_rp2040::export::Mask<"@;
    let chunks = "__rticx_internal_MASK_CHUNKS_core"@ + decimal(sub_app.core as nat);
    let before = "#[doc(hidden)]\n#[allow(non_upper_case_globals)]\nconst "@ + chunks
        + ": usize = rticx_rp2040::export::compute_mask_chunks(["@ + all_elements(
        pac,
        sub_app.tasks@,
    ) + "]);\n#[doc(hidden)]\n#[allow(non_upper_case_globals)]\nconst "@;
    let after = definitions@.skip((before + name).len() as int);
    assert(definitions@ =~= before + name + after);
    lemma_contains(before, name, after);
}

/// Locks of different cores differ.
pub proof fn law_locks_differ(
    backend: &Rp2040Rtic,
    a: &SubApp,
    b: &SubApp,
    ra: String,
    rb: String,
)
    requires
        call_ensures(Rp2040Rtic::generate_resource_proxy_lock_impl, (backend, a), ra),
        call_ensures(Rp2040Rtic::generate_resource_proxy_lock_impl, (backend, b), rb),
    ensures
        ra@ == rb@ <==> a.core == b.core,
{
    let head = "unsafe { rticx_rp2040::export::lock(resource_ptr, task_priority, CEILING, &"@
        + "__rticx_internal_MASKS_core"@;
    let tail = ", f) }"@;
    reveal_strlit(", f) }");
    assert(ra@ =~= head + (decimal(a.core as nat) + tail));
    assert(rb@ =~= head + (decimal(b.core as nat) + tail));
    assert(ra@.skip(head.len() as int) =~= decimal(a.core as nat) + tail);
    assert(rb@.skip(head.len() as int) =~= decimal(b.core as nat) + tail);
    if ra@ == rb@ {
        lemma_number_ends(a.core as nat, b.core as nat, tail, tail);
    }
}

/// The idle loop waits for an interrupt, a critical section runs its closure with
/// interrupts off, and nothing else stands around tasks or initialization.
pub proof fn law_small_pieces(
    backend: &Rp2040Rtic,
    idle: Option<String>,
    free: String,
    enable: Option<String>,
    wrap: Option<String>,
)
    requires
        call_ensures(Rp2040Rtic::populate_idle_loop, (backend,), idle),
        call_ensures(Rp2040Rtic::generate_interrupt_free_fn, (backend,), free),
        call_ensures(Rp2040Rtic::generate_enable_global_interrupts, (backend,), enable),
        call_ensures(Rp2040Rtic::wrap_task_execution, (backend,), wrap),
    ensures
        idle is Some && contains_text(idle->Some_0@, "asm!(\"wfi\" )"@),
        contains_text(free@, "interrupt::free(|_| f())"@),
        enable is None && wrap is None,
{
    reveal_strlit("unsafe { core::arch::asm!(\"wfi\" ); }");
    reveal_strlit("asm!(\"wfi\" )");
    reveal_strlit("{ rticx_rp2040::export::interrupt::free(|_| f()) }");
    reveal_strlit("interrupt::free(|_| f())");
    lemma_contains_at(idle->Some_0@, "asm!(\"wfi\" )"@, 21);
    lemma_contains_at(free@, "interrupt::free(|_| f())"@, 24);
}

} // verus!
