//! How core 1 gets its stack size.

use vstd::prelude::*;
use crate::attr::{
    app_elements, app_error, error_span, error_text, expr_digits, expr_span, expr_text, int_literal,
    lit_digits, lit_span, parse_usize_error,
};
use crate::backend::Rp2040Rtic;
use crate::core1_stack::{
    after_publish, consume_stack_argument, consumed, core1_stack_size, parse_cores_arg, Core1StackPass,
    PassError, PassOutput, StackFault,
};
use crate::info_bus::{bus_refused, bus_size};
use crate::spawn::contains_text;
use crate::text::{decimal, decimal_value, parse_u32_error};
use super::backend::lemma_contains;
use super::spawn::lemma_contains_at;
use super::text::lemma_number_ends;

verus! {

/// Without a request the size is 4096 words. A request is granted, as it is,
/// exactly for two cores and at least 1024 words; otherwise the number of cores
/// is found fault with first. No number of cores counts as one.
pub proof fn law_stack_size(
    requested: Option<usize>,
    cores: Option<u32>,
    r: Result<usize, StackFault>,
)
    requires
        call_ensures(core1_stack_size, (requested, cores), r),
    ensures
        requested is None ==> r == Ok::<usize, StackFault>(4096),
        requested matches Some(n) ==> {
            &&& r is Ok <==> cores == Some(2u32) && n >= 1024
            &&& r is Ok ==> r->Ok_0 == n
            &&& r == Err::<usize, StackFault>(StackFault::TooSmall) <==> cores == Some(2u32) && n
                < 1024
            &&& forall|c: u32|
                r == Err::<usize, StackFault>(StackFault::NotTwoCores(c)) <==> c != 2 && (cores
                    == Some(c) || (cores is None && c == 1))
        },
{
}

/// More words are never refused where fewer are granted.
pub proof fn law_stack_size_grows(
    a: usize,
    b: usize,
    cores: Option<u32>,
    ra: Result<usize, StackFault>,
    rb: Result<usize, StackFault>,
)
    requires
        a <= b,
        call_ensures(core1_stack_size, (Some(a), cores), ra),
        call_ensures(core1_stack_size, (Some(b), cores), rb),
    ensures
        ra is Ok ==> rb is Ok && rb->Ok_0 - ra->Ok_0 == b - a,
{
}

/// The text for a wrong number of cores holds that number; the text for a small
/// stack holds the minimum. Different faults have different texts.
pub proof fn law_stack_messages(a: &StackFault, b: &StackFault, ra: String, rb: String)
    requires
        call_ensures(StackFault::message, (a,), ra),
        call_ensures(StackFault::message, (b,), rb),
    ensures
        a matches StackFault::NotTwoCores(c) ==> contains_text(
            ra@,
            "only supported with `cores = 2` (found `cores = "@ + decimal(*c as nat) + "`)"@,
        ),
        *a == StackFault::TooSmall ==> contains_text(ra@, "at least 1024 words (4KiB)"@),
        ra@ == rb@ <==> *a == *b,
{
    reveal_strlit("`core1_stack` is only supported with `cores = 2` (found `cores = ");
    reveal_strlit("only supported with `cores = 2` (found `cores = ");
    reveal_strlit("`core1_stack` must be at least 1024 words (4KiB)");
    reveal_strlit("at least 1024 words (4KiB)");
    reveal_strlit("`)");
    let head = "`core1_stack` is only supported with `cores = 2` (found `cores = "@;
    match *a {
        StackFault::NotTwoCores(c) => {
            let part = "only supported with `cores = 2` (found `cores = "@ + decimal(c as nat)
                + "`)"@;
            let intro = head.take(17);
            assert(head =~= intro + "only supported with `cores = 2` (found `cores = "@);
            assert(ra@ =~= intro + part + Seq::empty());
            lemma_contains(intro, part, Seq::empty());
            assert(ra@[14] == 'i');
            match *b {
                StackFault::NotTwoCores(d) => {
                    assert(ra@.skip(head.len() as int) =~= decimal(c as nat) + "`)"@);
                    assert(rb@.skip(head.len() as int) =~= decimal(d as nat) + "`)"@);
                    if ra@ == rb@ {
                        lemma_number_ends(c as nat, d as nat, "`)"@, "`)"@);
                    }
                },
                StackFault::TooSmall => {
                    assert(rb@[14] == 'm');
                },
            }
        },
        StackFault::TooSmall => {
            lemma_contains_at(ra@, "at least 1024 words (4KiB)"@, 22);
            assert(ra@[14] == 'm');
            if let StackFault::NotTwoCores(d) = *b {
                assert(rb@[14] == head[14]);
            }
        },
    }
}

/// The number of cores is the value of an integer literal. Anything else counts
/// as absent, and a literal that does not fit is refused at its own place.
pub proof fn law_cores_argument(expr: Option<&syn::Expr>, r: Result<Option<u32>, PassError>)
    requires
        call_ensures(parse_cores_arg, (expr,), r),
    ensures
        expr is None ==> r == Ok::<Option<u32>, PassError>(None),
        expr matches Some(e) ==> {
            &&& int_literal(*e) is None ==> r == Ok::<Option<u32>, PassError>(None)
            &&& int_literal(*e) matches Some(lit) ==> {
                &&& forall|n: u32|
                    r == Ok::<Option<u32>, PassError>(Some(n)) <==> #[trigger] decimal_value(
                        lit_digits(lit),
                    ) == Some(n as nat)
                &&& r != Ok::<Option<u32>, PassError>(None)
                &&& r matches Err(refusal) ==> {
                    refusal matches PassError::Rejected { span, message } && span == Some(
                        lit_span(lit),
                    ) && message@ == "`cores` must be an integer literal: "@ + parse_u32_error(
                        lit_digits(lit),
                    )
                }
            }
        },
{
    reveal_strlit("`");
    reveal_strlit("cores");
    reveal_strlit("` must be an integer literal");
    reveal_strlit(": ");
    reveal_strlit("`cores` must be an integer literal: ");
    assert("`cores` must be an integer literal: "@ =~= "`"@ + "cores"@
        + "` must be an integer literal"@ + ": "@);
}

/// Accepted arguments are handed on without `core1_stack` and otherwise as they
/// were, and the module is handed on as it was.
pub proof fn law_rest_is_handed_on(
    args: proc_macro2::TokenStream,
    app_mod: syn::ItemMod,
    r: Result<PassOutput, PassError>,
    key: Seq<char>,
)
    requires
        call_ensures(consume_stack_argument, (args, app_mod), r),
        r is Ok,
    ensures
        r->Ok_0.app_mod == app_mod,
        app_elements(args) is Ok && app_elements(r->Ok_0.args) is Ok,
        app_elements(r->Ok_0.args)->Ok_0.contains_key(key) <==> key != "core1_stack"@
            && app_elements(args)->Ok_0.contains_key(key),
        app_elements(r->Ok_0.args)->Ok_0.contains_key(key) ==> {
            &&& expr_text(app_elements(r->Ok_0.args)->Ok_0[key]) == expr_text(
                app_elements(args)->Ok_0[key],
            )
            &&& expr_digits(app_elements(r->Ok_0.args)->Ok_0[key]) == expr_digits(
                app_elements(args)->Ok_0[key],
            )
        },
{
    let old_elements = app_elements(args)->Ok_0;
    let rest = app_elements(r->Ok_0.args)->Ok_0;
    assert(rest.dom() == old_elements.remove("core1_stack"@).dom());
    assert(rest.dom().contains(key) == old_elements.remove("core1_stack"@).dom().contains(key));
}

/// Without `core1_stack` every readable list of arguments is accepted, with 4096
/// words, whatever `cores` is.
pub proof fn law_no_stack_argument(
    args: proc_macro2::TokenStream,
    app_mod: syn::ItemMod,
    r: Result<PassOutput, PassError>,
)
    requires
        call_ensures(consume_stack_argument, (args, app_mod), r),
        app_elements(args) is Ok,
        !app_elements(args)->Ok_0.contains_key("core1_stack"@),
    ensures
        r is Ok && r->Ok_0.stack_size == 4096,
{
}

/// `core1_stack = n` is accepted, as it is, exactly where `cores = 2` stands
/// beside it and `n` is at least 1024; it is refused at its own place.
pub proof fn law_stack_argument(
    args: proc_macro2::TokenStream,
    app_mod: syn::ItemMod,
    r: Result<PassOutput, PassError>,
    n: usize,
    cores: Option<u32>,
    size: Result<usize, StackFault>,
)
    requires
        call_ensures(consume_stack_argument, (args, app_mod), r),
        app_elements(args) is Ok,
        app_elements(args)->Ok_0.contains_key("core1_stack"@),
        expr_digits(app_elements(args)->Ok_0["core1_stack"@]) is Some,
        decimal_value(expr_digits(app_elements(args)->Ok_0["core1_stack"@])->Some_0) == Some(
            n as nat,
        ),
        // `cores` is absent, or a literal that fits
        cores is None ==> !app_elements(args)->Ok_0.contains_key("cores"@),
        cores matches Some(c) ==> app_elements(args)->Ok_0.contains_key("cores"@) && expr_digits(
            app_elements(args)->Ok_0["cores"@],
        ) is Some && decimal_value(expr_digits(app_elements(args)->Ok_0["cores"@])->Some_0)
            == Some(c as nat),
        call_ensures(core1_stack_size, (Some(n), cores), size),
    ensures
        r is Ok <==> cores == Some(2u32) && n >= 1024,
        r is Ok ==> r->Ok_0.stack_size == n,
        r matches Err(e) ==> {
            &&& size is Err
            &&& e matches PassError::Rejected { span, message }
            &&& span == Some(expr_span(app_elements(args)->Ok_0["core1_stack"@]))
            &&& forall|text: String|
                call_ensures(StackFault::message, (&size->Err_0,), text) ==> message@ == text@
        },
{
}

/// What cannot be read is refused with the reader's own error, which points to
/// the unreadable argument.
pub proof fn law_unreadable_arguments(
    args: proc_macro2::TokenStream,
    app_mod: syn::ItemMod,
    r: Result<PassOutput, PassError>,
)
    requires
        call_ensures(consume_stack_argument, (args, app_mod), r),
    ensures
        app_elements(args) is Err ==> {
            &&& r is Err
            &&& r->Err_0 matches PassError::Syntax(e)
            &&& app_error(args, e)
        },
        app_elements(args) matches Ok(elements) ==> elements.contains_key("core1_stack"@) ==> {
            let expr = elements["core1_stack"@];
            &&& int_literal(expr) is None ==> {
                &&& r is Err
                &&& r->Err_0 matches PassError::Syntax(e)
                &&& error_span(e) == expr_span(expr)
                &&& error_text(e) == "`core1_stack` must be an integer literal"@
            }
            &&& int_literal(expr) matches Some(lit) ==> (forall|n: usize|
                #[trigger] decimal_value(lit_digits(lit)) != Some(n as nat)) ==> {
                &&& r is Err
                &&& r->Err_0 matches PassError::Syntax(e)
                &&& error_span(e) == lit_span(lit)
                &&& error_text(e) == "`core1_stack` must be an integer literal"@ + ": "@
                    + parse_usize_error(lit_digits(lit))
            }
        },
{
    reveal_strlit("`");
    reveal_strlit("core1_stack");
    reveal_strlit("` must be an integer literal");
    reveal_strlit("`core1_stack` must be an integer literal");
    assert("`core1_stack` must be an integer literal"@ =~= "`"@ + "core1_stack"@
        + "` must be an integer literal"@);
    if let Ok(elements) = app_elements(args) {
        if elements.contains_key("core1_stack"@) {
            if let Some(lit) = int_literal(elements["core1_stack"@]) {
                if let Some(v) = decimal_value(lit_digits(lit)) {
                    if v <= usize::MAX {
                        assert(decimal_value(lit_digits(lit)) == Some((v as usize) as nat));
                    }
                }
            }
        }
    }
}

/// A number of cores that does not fit is refused wherever a stack size is asked
/// for, before the size is judged.
pub proof fn law_unreadable_cores(
    args: proc_macro2::TokenStream,
    app_mod: syn::ItemMod,
    r: Result<PassOutput, PassError>,
    n: usize,
    lit: syn::LitInt,
)
    requires
        call_ensures(consume_stack_argument, (args, app_mod), r),
        app_elements(args) is Ok,
        app_elements(args)->Ok_0.contains_key("core1_stack"@),
        expr_digits(app_elements(args)->Ok_0["core1_stack"@]) is Some,
        decimal_value(expr_digits(app_elements(args)->Ok_0["core1_stack"@])->Some_0) == Some(
            n as nat,
        ),
        app_elements(args)->Ok_0.contains_key("cores"@),
        int_literal(app_elements(args)->Ok_0["cores"@]) == Some(lit),
        forall|c: u32| #[trigger] decimal_value(lit_digits(lit)) != Some(c as nat),
    ensures
        r is Err,
        r->Err_0 matches PassError::Rejected { span, message } && span == Some(lit_span(lit)),
{
    if let Some(v) = decimal_value(lit_digits(lit)) {
        if v <= u32::MAX {
            assert(decimal_value(lit_digits(lit)) == Some((v as u32) as nat));
        }
    }
}

/// A refused publication is the only thing that can turn an accepted result.
pub proof fn law_after_publish(
    out: PassOutput,
    answer: Option<Result<(), ()>>,
    r: Result<PassOutput, PassError>,
)
    requires
        call_ensures(after_publish, (out, answer), r),
    ensures
        answer is Some && answer->Some_0 is Err ==> r == Err::<PassOutput, PassError>(
            PassError::AlreadyPublished,
        ),
        answer is None || answer->Some_0 is Ok ==> r == Ok::<PassOutput, PassError>(out),
{
}

/// The pass does what reading the arguments gives. With a bus the accepted size is
/// the one that is published, and only a refusal by the bus adds an error.
pub proof fn law_run_pass(
    pass: &Core1StackPass,
    args: proc_macro2::TokenStream,
    app_mod: syn::ItemMod,
    r: Result<PassOutput, PassError>,
)
    requires
        call_ensures(Core1StackPass::run_pass, (pass, args, app_mod), r),
    ensures
        consumed(args, app_mod, r) || {
            &&& pass.info_bus is Some
            &&& r == Err::<PassOutput, PassError>(PassError::AlreadyPublished)
            &&& bus_refused(pass.info_bus->Some_0, "rticx_rp2040_core1_stack::StackSize"@)
        },
        pass.info_bus is None ==> consumed(args, app_mod, r),
        pass.info_bus is Some && r is Ok ==> bus_size(
            pass.info_bus->Some_0,
            "rticx_rp2040_core1_stack::StackSize"@,
        ) == r->Ok_0.stack_size,
{
}

/// Pass and backend start without a bus and keep the one they are given; the pass
/// has a name.
pub proof fn law_subscription(
    new_pass: Core1StackPass,
    new_backend: Rp2040Rtic,
    features: crate::model::Features,
    pass: &mut Core1StackPass,
    backend: &mut Rp2040Rtic,
    bus: rticx_core::InfoBus,
    name: &'static str,
)
    requires
        call_ensures(Core1StackPass::new, (), new_pass),
        call_ensures(Rp2040Rtic::new, (features,), new_backend),
        call_ensures(Core1StackPass::subscribe, (pass, bus), ()),
        call_ensures(Rp2040Rtic::subscribe, (backend, bus), ()),
        call_ensures(Core1StackPass::pass_name, (&new_pass,), name),
    ensures
        new_pass.info_bus is None && new_backend.info_bus is None,
        new_backend.features == features,
        final(pass).info_bus == Some(bus) && final(backend).info_bus == Some(bus),
        final(backend).features == old(backend).features,
        name@ == "Core1Stack"@,
{
}

} // verus!
