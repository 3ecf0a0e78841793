//! What the generated code does on a core.

use vstd::prelude::*;
use crate::backend::{
    init_stmts, interrupt_init_stmts, irq_configured, irq_stmts, irq_views,
    law_core_names_distinct, law_every_interrupt_configured, law_unmasked_after_priority,
    stmt_code, stmt_ordered, stmts_code, InitStmt, Rp2040Rtic,
};
use crate::irq::configurable_exception;
use crate::model::{AppArgs, SubApp, UsedIrq};
use crate::spawn::contains_text;
use crate::text::decimal;
use super::spawn::lemma_contains_at;
use super::text::lemma_number_ends;

verus! {

/// The check that the device has the priority of an interrupt.
pub open spec fn check_code(pac: Seq<char>, irq: UsedIrq) -> Seq<char> {
    "const _: () = if (1usize << "@ + pac + "::NVIC_PRIO_BITS) < "@ + decimal(irq.priority as nat)
        + "u16 as usize { ::core::panic!(\"Maximum priority used by interrupt vector '"@ + irq.name@
        + "' is more than supported by hardware\"); };\n"@
}

/// The name of an external interrupt in generated code.
pub open spec fn number_code(pac: Seq<char>, name: Seq<char>) -> Seq<char> {
    pac + "::Interrupt::"@ + name
}

/// The call that sets the priority of an interrupt with the controller of its
/// kind, for its own name and its own priority.
pub open spec fn set_priority_code(pac: Seq<char>, irq: UsedIrq) -> Seq<char> {
    (if configurable_exception(irq.name@) {
        "core.SCB.set_priority(rticx_rp2040::export::SystemHandler::"@ + irq.name@
    } else {
        "core.NVIC.set_priority("@ + number_code(pac, irq.name@)
    }) + ", rticx_rp2040::export::cortex_logical2hw("@ + decimal(irq.priority as nat)
        + "u16 as u8, "@ + pac + "::NVIC_PRIO_BITS),);\n"@
}

/// The call that unmasks an external interrupt; an exception has none.
pub open spec fn unmask_code(pac: Seq<char>, irq: UsedIrq) -> Seq<char> {
    if configurable_exception(irq.name@) {
        Seq::empty()
    } else {
        "rticx_rp2040::export::NVIC::unmask("@ + number_code(pac, irq.name@) + ");\n"@
    }
}

/// Everything that one interrupt needs: its priority is checked, then set, then
/// it is let through.
pub open spec fn set_up_code(pac: Seq<char>, irq: UsedIrq) -> Seq<char> {
    check_code(pac, irq) + set_priority_code(pac, irq) + unmask_code(pac, irq)
}

/// What a core runs that other cores do not depend on: the set-up of each of its
/// interrupts, in order.
pub open spec fn interrupts_code(pac: Seq<char>, irqs: Seq<UsedIrq>) -> Seq<char> {
    "unsafe {\n"@ + "let mut core = unsafe { rticx_rp2040::export::Peripherals::steal() };\n"@
        + irqs.map_values(|irq: UsedIrq| set_up_code(pac, irq)).flatten() + "}\n"@
}

proof fn lemma_stmts_concat(
    a: Seq<InitStmt>,
    b: Seq<InitStmt>,
    pac: Seq<char>,
    irqs: Seq<(Seq<char>, u16)>,
)
    ensures
        stmts_code(a + b, pac, irqs) == stmts_code(a, pac, irqs) + stmts_code(b, pac, irqs),
    decreases b.len(),
{
    if b.len() == 0 {
        assert(a + b =~= a);
        assert(stmts_code(a, pac, irqs) + Seq::<char>::empty() =~= stmts_code(a, pac, irqs));
    } else {
        lemma_stmts_concat(a, b.drop_last(), pac, irqs);
        assert((a + b).drop_last() =~= a + b.drop_last());
        assert((a + b).last() == b.last());
        assert(stmts_code(a, pac, irqs) + (stmts_code(b.drop_last(), pac, irqs) + stmt_code(
            b.last(),
            pac,
            irqs,
        )) =~= stmts_code(a, pac, irqs) + stmts_code(b.drop_last(), pac, irqs) + stmt_code(
            b.last(),
            pac,
            irqs,
        ));
    }
}

proof fn lemma_one_stmt(stmt: InitStmt, pac: Seq<char>, irqs: Seq<(Seq<char>, u16)>)
    ensures
        stmts_code(seq![stmt], pac, irqs) == stmt_code(stmt, pac, irqs),
{
    assert(seq![stmt].drop_last() =~= Seq::empty());
    assert(stmts_code(Seq::empty(), pac, irqs) =~= Seq::empty());
    assert(Seq::<char>::empty() + stmt_code(stmt, pac, irqs) =~= stmt_code(stmt, pac, irqs));
}

proof fn lemma_irq_stmts_code(pac: Seq<char>, irqs: Seq<UsedIrq>, i: int)
    requires
        0 <= i < irqs.len() <= usize::MAX,
    ensures
        stmts_code(irq_stmts(irq_views(irqs), i), pac, irq_views(irqs)) == set_up_code(
            pac,
            irqs[i],
        ),
{
    let views = irq_views(irqs);
    let k = i as usize;
    assert(views[i] == irqs[i]@);
    let check = InitStmt::AssertPriority(k);
    lemma_one_stmt(check, pac, views);
    assert(stmt_code(check, pac, views) == check_code(pac, irqs[i]));
    if configurable_exception(irqs[i].name@) {
        let set = InitStmt::ScbPriority(k);
        lemma_one_stmt(set, pac, views);
        lemma_stmts_concat(seq![check], seq![set], pac, views);
        assert(irq_stmts(views, i) =~= seq![check] + seq![set]);
        assert(stmt_code(set, pac, views) =~= set_priority_code(pac, irqs[i]));
        assert(set_up_code(pac, irqs[i]) =~= check_code(pac, irqs[i]) + set_priority_code(
            pac,
            irqs[i],
        ));
    } else {
        let set = InitStmt::NvicPriority(k);
        let unmask = InitStmt::Unmask(k);
        lemma_one_stmt(set, pac, views);
        lemma_one_stmt(unmask, pac, views);
        lemma_stmts_concat(seq![check], seq![set], pac, views);
        lemma_stmts_concat(seq![check] + seq![set], seq![unmask], pac, views);
        assert(irq_stmts(views, i) =~= seq![check] + seq![set] + seq![unmask]);
        assert(stmt_code(set, pac, views) =~= set_priority_code(pac, irqs[i]));
        assert(stmt_code(unmask, pac, views) =~= unmask_code(pac, irqs[i]));
    }
}

proof fn lemma_init_stmts_code(pac: Seq<char>, irqs: Seq<UsedIrq>, n: nat)
    requires
        n <= irqs.len() <= usize::MAX,
    ensures
        stmts_code(init_stmts(irq_views(irqs), n), pac, irq_views(irqs))
            == "let mut core = unsafe { rticx_rp2040::export::Peripherals::steal() };\n"@
            + irqs.take(n as int).map_values(|irq: UsedIrq| set_up_code(pac, irq)).flatten(),
    decreases n,
{
    let views = irq_views(irqs);
    let steal = "let mut core = unsafe { rticx_rp2040::export::Peripherals::steal() };\n"@;
    let f = |irq: UsedIrq| set_up_code(pac, irq);
    if n == 0 {
        lemma_one_stmt(InitStmt::StealPeripherals, pac, views);
        assert(irqs.take(0).map_values(f) =~= Seq::empty());
        assert(steal + Seq::<char>::empty() =~= steal);
    } else {
        let before = irqs.take(n - 1).map_values(f);
        lemma_init_stmts_code(pac, irqs, (n - 1) as nat);
        lemma_irq_stmts_code(pac, irqs, n - 1);
        lemma_stmts_concat(
            init_stmts(views, (n - 1) as nat),
            irq_stmts(views, n - 1),
            pac,
            views,
        );
        assert(irqs.take(n as int).map_values(f) =~= before.push(set_up_code(pac, irqs[n - 1])));
        before.lemma_flatten_push(set_up_code(pac, irqs[n - 1]));
        assert(steal + before.flatten() + set_up_code(pac, irqs[n - 1]) =~= steal + (
        before.flatten() + set_up_code(pac, irqs[n - 1])));
    }
}

/// What a core runs after initialization: the set-up of its interrupts; on core 0
/// of several the start of core 1; and on every core of several the set-up of its
/// end of the FIFO, where tasks can be spawned.
pub proof fn law_post_init(
    backend: &Rp2040Rtic,
    args: &AppArgs,
    sub_app: &SubApp,
    irqs: &Vec<UsedIrq>,
    r: Option<String>,
)
    requires
        sub_app.core < args.pacs@.len(),
        call_ensures(Rp2040Rtic::post_init, (backend, args, sub_app, irqs), r),
    ensures
        r is Some,
        r->Some_0@ == interrupts_code(args.pacs@[sub_app.core as int]@, irqs@) + (if sub_app.core
            == 0 && args.cores > 1 {
            "let core1_stack = unsafe { &mut __rticx_internal_CORE1_STACK.mem };\nrticx_rp2040::export::cross_core::init_core1(move || "@
                + "core1_entry"@ + "(), core1_stack);\n"@
        } else {
            Seq::empty()
        }) + (if args.cores > 1 && (backend.features.swtasks || backend.features.async_tasks) {
            "rticx_rp2040::export::cross_core::configure_fifo("@ + decimal(sub_app.core as nat)
                + "u32 as u8)\n"@
        } else {
            Seq::empty()
        }),
{
    let pac = args.pacs@[sub_app.core as int]@;
    let n = irqs.len();
    lemma_init_stmts_code(pac, irqs@, irqs@.len());
    assert(irqs@.take(irqs@.len() as int) =~= irqs@);
    let all = irqs@.map_values(|irq: UsedIrq| set_up_code(pac, irq)).flatten();
    let steal = "let mut core = unsafe { rticx_rp2040::export::Peripherals::steal() };\n"@;
    assert("unsafe {\n"@ + (steal + all) + "}\n"@ =~= interrupts_code(pac, irqs@));
}

/// Part `i` of a list of texts stands between those before and those behind it.
pub proof fn lemma_flatten_part(parts: Seq<Seq<char>>, i: int)
    requires
        0 <= i < parts.len(),
    ensures
        parts.flatten() == parts.take(i).flatten() + parts[i] + parts.skip(i + 1).flatten(),
    decreases i,
{
    if i == 0 {
        assert(parts.take(0) =~= Seq::empty());
        assert(parts.skip(1) =~= parts.drop_first());
        assert(parts.take(0).flatten() + parts[0] =~= parts[0]);
    } else {
        let rest = parts.drop_first();
        lemma_flatten_part(rest, i - 1);
        assert(rest.take(i - 1) =~= parts.take(i).drop_first());
        assert(rest.skip(i) =~= parts.skip(i + 1));
        assert(parts.take(i).first() == parts[0]);
        assert(parts.flatten() =~= parts[0] + (rest.take(i - 1).flatten() + rest[i - 1]
            + rest.skip(i).flatten()));
        assert(parts.take(i).flatten() == parts[0] + rest.take(i - 1).flatten());
    }
}

/// A part between two others is contained in the whole.
pub proof fn lemma_contains(before: Seq<char>, part: Seq<char>, after: Seq<char>)
    ensures
        contains_text(before + part + after, part),
{
    let whole = before + part + after;
    assert forall|k: int| 0 <= k < part.len() implies whole[before.len() + k]
        == #[trigger] part[k] by {
    }
    lemma_contains_at(whole, part, before.len() as int);
}

/// A priority, given as text, is checked and then set for the interrupt `name`,
/// which is unmasked right behind where it is no exception.
pub open spec fn checked_then_set(
    pac: Seq<char>,
    name: Seq<char>,
    priority: Seq<char>,
    exception: bool,
) -> Seq<char> {
    "const _: () = if (1usize << "@ + pac + "::NVIC_PRIO_BITS) < "@ + priority
        + "u16 as usize { ::core::panic!(\"Maximum priority used by interrupt vector '"@ + name
        + "' is more than supported by hardware\"); };\n"@ + (if exception {
        "core.SCB.set_priority(rticx_rp2040::export::SystemHandler::"@ + name
            + ", rticx_rp2040::export::cortex_logical2hw("@ + priority + "u16 as u8, "@ + pac
            + "::NVIC_PRIO_BITS),);\n"@
    } else {
        "core.NVIC.set_priority("@ + pac + "::Interrupt::"@ + name
            + ", rticx_rp2040::export::cortex_logical2hw("@ + priority + "u16 as u8, "@ + pac
            + "::NVIC_PRIO_BITS),);\n"@ + "rticx_rp2040::export::NVIC::unmask("@ + pac
            + "::Interrupt::"@ + name + ");\n"@
    })
}

proof fn lemma_set_up_text(pac: Seq<char>, irq: UsedIrq)
    ensures
        set_up_code(pac, irq) == checked_then_set(
            pac,
            irq.name@,
            decimal(irq.priority as nat),
            configurable_exception(irq.name@),
        ),
{
    let e = configurable_exception(irq.name@);
    let n = decimal(irq.priority as nat);
    let tail = set_priority_code(pac, irq) + unmask_code(pac, irq);
    assert(set_up_code(pac, irq) =~= check_code(pac, irq) + tail);
    if e {
        assert(tail =~= set_priority_code(pac, irq));
    } else {
        assert(tail =~= "core.NVIC.set_priority("@ + pac + "::Interrupt::"@ + irq.name@
            + ", rticx_rp2040::export::cortex_logical2hw("@ + n + "u16 as u8, "@ + pac
            + "::NVIC_PRIO_BITS),);\n"@ + "rticx_rp2040::export::NVIC::unmask("@ + pac
            + "::Interrupt::"@ + irq.name@ + ");\n"@);
    }
}

proof fn lemma_interrupts_first(
    backend: &Rp2040Rtic,
    args: &AppArgs,
    sub_app: &SubApp,
    irqs: &Vec<UsedIrq>,
    r: Option<String>,
)
    requires
        sub_app.core < args.pacs@.len(),
        call_ensures(Rp2040Rtic::post_init, (backend, args, sub_app, irqs), r),
    ensures
        ({
            let first = interrupts_code(args.pacs@[sub_app.core as int]@, irqs@);
            &&& r is Some
            &&& r->Some_0@.len() >= first.len()
            &&& r->Some_0@ == first + r->Some_0@.skip(first.len() as int)
        }),
{
    law_post_init(backend, args, sub_app, irqs, r);
    let first = interrupts_code(args.pacs@[sub_app.core as int]@, irqs@);
    assert(r->Some_0@ =~= first + r->Some_0@.skip(first.len() as int));
}

/// Every used interrupt gets its own priority: the text of its own priority is
/// the one that is checked and the one that is set, under its own name, and an
/// external interrupt is unmasked right behind.
pub proof fn law_every_priority_is_set(
    backend: &Rp2040Rtic,
    args: &AppArgs,
    sub_app: &SubApp,
    irqs: &Vec<UsedIrq>,
    r: Option<String>,
    i: int,
)
    requires
        sub_app.core < args.pacs@.len(),
        call_ensures(Rp2040Rtic::post_init, (backend, args, sub_app, irqs), r),
        0 <= i < irqs@.len(),
    ensures
        contains_text(
            r->Some_0@,
            checked_then_set(
                args.pacs@[sub_app.core as int]@,
                irqs@[i].name@,
                decimal(irqs@[i].priority as nat),
                configurable_exception(irqs@[i].name@),
            ),
        ),
{
    let pac = args.pacs@[sub_app.core as int]@;
    lemma_interrupts_first(backend, args, sub_app, irqs, r);
    let (start, end) = lemma_interrupts_around(pac, irqs@, i);
    let code = r->Some_0@;
    let tail = code.skip(interrupts_code(pac, irqs@).len() as int);
    let part = set_up_code(pac, irqs@[i]);
    assert(code =~= start + part + (end + tail));
    lemma_contains(start, part, end + tail);
    lemma_set_up_text(pac, irqs@[i]);
}

/// The code before and the code behind the set-up of interrupt `i`.
proof fn lemma_interrupts_around(pac: Seq<char>, irqs: Seq<UsedIrq>, i: int) -> (r: (
    Seq<char>,
    Seq<char>,
))
    requires
        0 <= i < irqs.len(),
    ensures
        interrupts_code(pac, irqs) == r.0 + set_up_code(pac, irqs[i]) + r.1,
        r.0 == "unsafe {\n"@
            + "let mut core = unsafe { rticx_rp2040::export::Peripherals::steal() };\n"@
            + irqs.take(i).map_values(|irq: UsedIrq| set_up_code(pac, irq)).flatten(),
{
    let f = |irq: UsedIrq| set_up_code(pac, irq);
    let parts = irqs.map_values(f);
    lemma_flatten_part(parts, i);
    assert(parts.take(i) =~= irqs.take(i).map_values(f));
    let start = "unsafe {\n"@
        + "let mut core = unsafe { rticx_rp2040::export::Peripherals::steal() };\n"@ + parts.take(
        i,
    ).flatten();
    let end = parts.skip(i + 1).flatten() + "}\n"@;
    assert(interrupts_code(pac, irqs) =~= start + set_up_code(pac, irqs[i]) + end);
    (start, end)
}

/// The code of two cores whose interrupts differ in one priority differs.
pub proof fn law_priority_shows(
    backend: &Rp2040Rtic,
    args: &AppArgs,
    sub_app: &SubApp,
    a: &Vec<UsedIrq>,
    b: &Vec<UsedIrq>,
    ra: Option<String>,
    rb: Option<String>,
    i: int,
)
    requires
        sub_app.core < args.pacs@.len(),
        call_ensures(Rp2040Rtic::post_init, (backend, args, sub_app, a), ra),
        call_ensures(Rp2040Rtic::post_init, (backend, args, sub_app, b), rb),
        0 <= i < a@.len() && i < b@.len(),
        a@.take(i) == b@.take(i),
        a@[i].priority != b@[i].priority,
    ensures
        ra->Some_0@ != rb->Some_0@,
{
    let pac = args.pacs@[sub_app.core as int]@;
    lemma_interrupts_first(backend, args, sub_app, a, ra);
    lemma_interrupts_first(backend, args, sub_app, b, rb);
    let (sa, ea) = lemma_interrupts_around(pac, a@, i);
    let (sb, eb) = lemma_interrupts_around(pac, b@, i);
    let (ca, cb) = (ra->Some_0@, rb->Some_0@);
    let head = "const _: () = if (1usize << "@ + pac + "::NVIC_PRIO_BITS) < "@;
    let (na, nb) = (decimal(a@[i].priority as nat), decimal(b@[i].priority as nat));
    assert(sa == sb);
    let k = (sa + head).len() as int;
    let xa = ca.skip(k).skip(na.len() as int);
    let xb = cb.skip(k).skip(nb.len() as int);
    let ta = ca.skip(interrupts_code(pac, a@).len() as int);
    let tb = cb.skip(interrupts_code(pac, b@).len() as int);
    lemma_number_in_set_up(sa, pac, a@[i], ea, ta, ca);
    lemma_number_in_set_up(sb, pac, b@[i], eb, tb, cb);
    if ca == cb {
        lemma_number_ends(a@[i].priority as nat, b@[i].priority as nat, xa, xb);
    }
}

/// The priority stands at a fixed place of an interrupt's set-up, and a letter
/// ends it.
proof fn lemma_number_in_set_up(
    start: Seq<char>,
    pac: Seq<char>,
    irq: UsedIrq,
    end: Seq<char>,
    tail: Seq<char>,
    code: Seq<char>,
)
    requires
        code == start + set_up_code(pac, irq) + end + tail,
    ensures
        ({
            let head = "const _: () = if (1usize << "@ + pac + "::NVIC_PRIO_BITS) < "@;
            let n = decimal(irq.priority as nat);
            let rest = code.skip((start + head).len() as int);
            &&& rest.len() > n.len()
            &&& rest == n + rest.skip(n.len() as int)
            &&& rest.skip(n.len() as int)[0] == 'u'
        }),
{
    let head = "const _: () = if (1usize << "@ + pac + "::NVIC_PRIO_BITS) < "@;
    let n = decimal(irq.priority as nat);
    let mid = "u16 as usize { ::core::panic!(\"Maximum priority used by interrupt vector '"@;
    reveal_strlit("u16 as usize { ::core::panic!(\"Maximum priority used by interrupt vector '");
    let after = mid + irq.name@ + "' is more than supported by hardware\"); };\n"@
        + set_priority_code(pac, irq) + unmask_code(pac, irq) + end;
    let whole = start + set_up_code(pac, irq) + end;
    assert(whole =~= start + head + n + after);
    let rest = code.skip((start + head).len() as int);
    assert(rest =~= n + (after + tail));
    assert(rest.skip(n.len() as int) =~= after + tail);
    assert(after[0] == mid[0]);
}

/// The number of cores and the features only add code at the end.
pub proof fn law_cores_add_code(
    one: &Rp2040Rtic,
    more: &Rp2040Rtic,
    a: &AppArgs,
    b: &AppArgs,
    sub_app: &SubApp,
    irqs: &Vec<UsedIrq>,
    ra: Option<String>,
    rb: Option<String>,
)
    requires
        sub_app.core < a.pacs@.len() && sub_app.core < b.pacs@.len(),
        a.pacs@[sub_app.core as int]@ == b.pacs@[sub_app.core as int]@,
        a.cores <= 1,
        call_ensures(Rp2040Rtic::post_init, (one, a, sub_app, irqs), ra),
        call_ensures(Rp2040Rtic::post_init, (more, b, sub_app, irqs), rb),
    ensures
        ra is Some && rb is Some,
        rb->Some_0@.len() >= ra->Some_0@.len(),
        rb->Some_0@.take(ra->Some_0@.len() as int) == ra->Some_0@,
        rb->Some_0@ == ra->Some_0@ <==> b.cores <= 1 || (sub_app.core != 0
            && !more.features.swtasks && !more.features.async_tasks),
{
    law_post_init(one, a, sub_app, irqs, ra);
    law_post_init(more, b, sub_app, irqs, rb);
    let base = interrupts_code(a.pacs@[sub_app.core as int]@, irqs@);
    reveal_strlit("(), core1_stack);\n");
    reveal_strlit("u32 as u8)\n");
    assert(ra->Some_0@ =~= base);
    assert(rb->Some_0@.take(base.len() as int) =~= base);
    if b.cores <= 1 || (sub_app.core != 0 && !more.features.swtasks && !more.features.async_tasks) {
        assert(rb->Some_0@ =~= base);
    } else {
        assert(rb->Some_0@.len() > base.len());
    }
}

/// Core 0 starts core 1 at the entry function that core 1 has.
pub proof fn law_core1_is_started(
    backend: &Rp2040Rtic,
    args: &AppArgs,
    sub_app: &SubApp,
    irqs: &Vec<UsedIrq>,
    r: Option<String>,
    entry: String,
)
    requires
        sub_app.core < args.pacs@.len(),
        call_ensures(Rp2040Rtic::post_init, (backend, args, sub_app, irqs), r),
        call_ensures(Rp2040Rtic::entry_name, (backend, 1u32), entry),
        sub_app.core == 0 && args.cores > 1,
    ensures
        contains_text(
            r->Some_0@,
            "let core1_stack = unsafe { &mut __rticx_internal_CORE1_STACK.mem };\nrticx_rp2040::export::cross_core::init_core1(move || "@
                + entry@ + "(), core1_stack);\n"@,
        ),
{
    law_post_init(backend, args, sub_app, irqs, r);
    let base = interrupts_code(args.pacs@[0]@, irqs@);
    let start =
        "let core1_stack = unsafe { &mut __rticx_internal_CORE1_STACK.mem };\nrticx_rp2040::export::cross_core::init_core1(move || "@
        + entry@ + "(), core1_stack);\n"@;
    let tail = r->Some_0@.skip((base + start).len() as int);
    assert(r->Some_0@ =~= base + start + tail);
    lemma_contains(base, start, tail);
}

/// Core 0 is entered at `main`, every other core at a function of its own that
/// has its number in the name; no two cores share one.
pub proof fn law_entry_names(
    backend: &Rp2040Rtic,
    a: u32,
    b: u32,
    ra: String,
    rb: String,
)
    requires
        call_ensures(Rp2040Rtic::entry_name, (backend, a), ra),
        call_ensures(Rp2040Rtic::entry_name, (backend, b), rb),
    ensures
        a == 0 ==> ra@ == "main"@,
        a > 0 ==> ra@ == "core"@ + decimal(a as nat) + "_entry"@,
        ra@ == rb@ <==> a == b,
{
    if a != b {
        law_core_names_distinct(a, b);
    }
    if a == 1 {
        reveal_strlit("core");
        reveal_strlit("_entry");
        reveal_strlit("core1_entry");
        assert(decimal(1) == seq!['1']);
        assert(ra@ =~= "core"@ + decimal(1) + "_entry"@);
    }
}

/// The statements of the interrupt set-up: the peripherals are taken first, every
/// interrupt is set up, and each statement stands where it may.
pub proof fn law_interrupt_init_stmts(irqs: &Vec<UsedIrq>, r: Vec<InitStmt>)
    requires
        call_ensures(interrupt_init_stmts, (irqs,), r),
    ensures
        r@.len() > 0 && r@[0] == InitStmt::StealPeripherals,
        forall|i: int| 0 <= i < irqs@.len() ==> #[trigger] irq_configured(irq_views(irqs@), r@, i),
        forall|k: int| 0 <= k < r@.len() ==> #[trigger] stmt_ordered(irq_views(irqs@), r@, k),
{
    let views = irq_views(irqs@);
    let n = irqs.len();
    assert(views.len() == n);
    lemma_init_nonempty(views, views.len());
    law_unmasked_after_priority(views, 0);
    assert forall|i: int| 0 <= i < irqs@.len() implies #[trigger] irq_configured(views, r@, i) by {
        law_every_interrupt_configured(views, i);
    }
    assert forall|k: int| 0 <= k < r@.len() implies #[trigger] stmt_ordered(views, r@, k) by {
        law_unmasked_after_priority(views, k);
    }
}

proof fn lemma_init_nonempty(irqs: Seq<(Seq<char>, u16)>, n: nat)
    ensures
        init_stmts(irqs, n).len() > 0,
    decreases n,
{
    if n > 0 {
        lemma_init_nonempty(irqs, (n - 1) as nat);
    }
}

} // verus!
