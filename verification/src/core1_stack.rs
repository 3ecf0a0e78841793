//! The pass that consumes the `core1_stack` argument of the application
//! attribute: the stack size of core 1 in 32-bit words.

use vstd::prelude::*;
use vstd::string::StringExecFns;
use crate::attr::{
    app_elements, app_error, args_tokens, as_int_literal, base10_digits, error_span, error_text,
    expr_digits, expr_span,
    get_expr, int_literal, lit_digits, lit_span, literal_span, not_integer_text, parse_app_attr,
    parse_usize_error, same_arguments, span_of, take_usize,
};
use crate::info_bus::{bus_refused, bus_size, publish_size};
use crate::text::{decimal, decimal_text, decimal_value, parse_u32, parse_u32_error};

verus! {

/// Entry of the information bus that holds the stack size of core 1.
pub const INFO_CORE1_STACK_SIZE: &'static str = "rticx_rp2040_core1_stack::StackSize";

/// Stack of core 1 in 32-bit words where the application gives none.
pub const DEFAULT_CORE1_STACK_SIZE: usize = 4096;

/// Smallest stack of core 1, in 32-bit words.
pub const MIN_CORE1_STACK_SIZE: usize = 1024;

/// Why a stack size for core 1 is refused.
#[derive(Clone, Copy, Debug, PartialEq, Eq, Structural)]
pub enum StackFault {
    /// The application does not run on two cores but on this many.
    NotTwoCores(u32),
    /// The stack is smaller than 4 KiB.
    TooSmall,
}

impl StackFault {
    /// The text that the user sees.
    pub open spec fn spec_message(self) -> Seq<char> {
        match self {
            StackFault::NotTwoCores(cores) =>
                "`core1_stack` is only supported with `cores = 2` (found `cores = "@ + decimal(
                cores as nat,
            ) + "`)"@,
            StackFault::TooSmall => "`core1_stack` must be at least 1024 words (4KiB)"@,
        }
    }

    /// The text that the user sees.
    pub fn message(&self) -> (r: String)
        ensures
            r@ == self.spec_message(),
    {
        match self {
            StackFault::NotTwoCores(cores) => {
                let mut out =
                    "`core1_stack` is only supported with `cores = 2` (found `cores = ".to_owned();
                out.append(decimal_text(*cores as u64).as_str());
                out.append("`)");
                out
            },
            StackFault::TooSmall =>
                "`core1_stack` must be at least 1024 words (4KiB)".to_owned(),
        }
    }
}

/// The stack size of core 1 for the arguments `core1_stack` and `cores`, each
/// where it is given. A stack size is only accepted for an application on two
/// cores; without `cores` an application runs on one.
pub open spec fn stack_rule(requested: Option<usize>, cores: Option<u32>) -> Result<
    usize,
    StackFault,
> {
    match requested {
        None => Ok(DEFAULT_CORE1_STACK_SIZE),
        Some(n) => {
            let cores = match cores {
                Some(c) => c,
                None => 1,
            };
            if cores != 2 {
                Err(StackFault::NotTwoCores(cores))
            } else if n < MIN_CORE1_STACK_SIZE {
                Err(StackFault::TooSmall)
            } else {
                Ok(n)
            }
        },
    }
}

/// Decides on the stack size of core 1.
pub fn core1_stack_size(requested: Option<usize>, cores: Option<u32>) -> (r: Result<
    usize,
    StackFault,
>)
    ensures
        r == stack_rule(requested, cores),
{
    match requested {
        Some(n) => {
            // a stack for core 1 is only meaningful when a second core is started
            let cores: u32 = match cores {
                Some(c) => c,
                None => 1,
            };
            if cores != 2 {
                return Err(StackFault::NotTwoCores(cores));
            }
            if n < MIN_CORE1_STACK_SIZE {
                return Err(StackFault::TooSmall);
            }
            Ok(n)
        },
        None => Ok(DEFAULT_CORE1_STACK_SIZE),
    }
}

/// Why the arguments of the application attribute are refused.
pub enum PassError {
    /// `rticx_core` or `syn` could not read them.
    Syntax(syn::Error),
    /// An argument has a value that it may not have.
    Rejected {
        /// Place of the value.
        span: Option<proc_macro2::Span>,
        message: String,
    },
    /// Someone else has left a stack size on the information bus.
    AlreadyPublished,
}

/// A refusal in terms of its text and the place that it points to.
pub enum Refusal {
    Syntax(Seq<char>, proc_macro2::Span),
    Rejected(Seq<char>, Option<proc_macro2::Span>),
    AlreadyPublished(Seq<char>),
}

impl View for PassError {
    type V = Refusal;

    open spec fn view(&self) -> Refusal {
        match *self {
            PassError::Syntax(e) => Refusal::Syntax(error_text(e), error_span(e)),
            PassError::Rejected { span, message } => Refusal::Rejected(message@, span),
            PassError::AlreadyPublished => Refusal::AlreadyPublished(
                "no other crate is allowed to publish "@ + INFO_CORE1_STACK_SIZE@,
            ),
        }
    }
}

/// What the argument `cores` gives: nothing where it is absent or no integer
/// literal, a number, or a refusal where the number does not fit.
pub open spec fn cores_value(expr: Option<syn::Expr>) -> Result<Option<u32>, Refusal> {
    match expr {
        Some(e) => match int_literal(e) {
            Some(lit) => match decimal_value(lit_digits(lit)) {
                Some(v) if v <= u32::MAX => Ok(Some(v as u32)),
                _ => Err(
                    Refusal::Rejected(
                        not_integer_text("cores"@) + ": "@ + parse_u32_error(lit_digits(lit)),
                        Some(lit_span(lit)),
                    ),
                ),
            },
            None => Ok(None),
        },
        None => Ok(None),
    }
}

/// Reads the argument `cores` without removing it, since the core parser still
/// needs it.
pub fn parse_cores_arg(expr: Option<&syn::Expr>) -> (r: Result<Option<u32>, PassError>)
    ensures
        match cores_value(
            match expr {
                Some(e) => Some(*e),
                None => None,
            },
        ) {
            Ok(cores) => r matches Ok(c) && c == cores,
            Err(refusal) => r matches Err(e) && e@ == refusal,
        },
{
    match expr {
        Some(e) => match as_int_literal(e) {
            Some(lit) => match parse_u32(base10_digits(lit)) {
                Ok(cores) => Ok(Some(cores)),
                Err(detail) => {
                    let mut message = "`".to_owned();
                    message.append("cores");
                    message.append("` must be an integer literal");
                    message.append(": ");
                    message.append(detail.as_str());
                    Err(PassError::Rejected { span: Some(literal_span(lit)), message })
                },
            },
            None => Ok(None),
        },
        None => Ok(None),
    }
}

/// The argument `key`, if it is there.
pub open spec fn argument(elements: Map<Seq<char>, syn::Expr>, key: Seq<char>) -> Option<
    syn::Expr,
> {
    if elements.contains_key(key) {
        Some(elements[key])
    } else {
        None
    }
}

/// The stack size that the arguments `elements` give core 1, or the refusal.
pub open spec fn stack_argument(elements: Map<Seq<char>, syn::Expr>) -> Result<
    usize,
    Refusal,
> {
    match argument(elements, "core1_stack"@) {
        None => Ok(DEFAULT_CORE1_STACK_SIZE),
        Some(e) => match int_literal(e) {
            None => Err(Refusal::Syntax(not_integer_text("core1_stack"@), expr_span(e))),
            Some(lit) => match decimal_value(lit_digits(lit)) {
                Some(n) if n <= usize::MAX => match cores_value(argument(elements, "cores"@)) {
                    Err(refusal) => Err(refusal),
                    Ok(cores) => match stack_rule(Some(n as usize), cores) {
                        Ok(words) => Ok(words),
                        Err(fault) => Err(
                            Refusal::Rejected(fault.spec_message(), Some(expr_span(e))),
                        ),
                    },
                },
                _ => Err(
                    Refusal::Syntax(
                        not_integer_text("core1_stack"@) + ": "@ + parse_usize_error(
                            lit_digits(lit),
                        ),
                        lit_span(lit),
                    ),
                ),
            },
        },
    }
}

/// What the pass hands on.
pub struct PassOutput {
    /// Stack size of core 1, in 32-bit words.
    pub stack_size: usize,
    /// The arguments of the attribute without the consumed one.
    pub args: proc_macro2::TokenStream,
    /// The application module.
    pub app_mod: syn::ItemMod,
}

/// `r` is what becomes of the arguments `args` and the module `app_mod`: the
/// refusal that they deserve, or the stack size of core 1 with the other
/// arguments and the module unchanged.
pub open spec fn consumed(
    args: proc_macro2::TokenStream,
    app_mod: syn::ItemMod,
    r: Result<PassOutput, PassError>,
) -> bool {
    match app_elements(args) {
        Err(text) => {
            &&& r matches Err(PassError::Syntax(e))
            &&& error_text(e) == text
            &&& app_error(args, e)
        },
        Ok(elements) => match stack_argument(elements) {
            Err(refusal) => r matches Err(e) && e@ == refusal,
            Ok(words) => {
                &&& r matches Ok(out)
                &&& out.stack_size == words
                &&& out.app_mod == app_mod
                &&& app_elements(out.args) matches Ok(rest)
                &&& same_arguments(rest, elements.remove("core1_stack"@))
            },
        },
    }
}

/// Takes the stack size of core 1 out of the arguments of the attribute. The
/// other arguments and the module are handed on unchanged.
pub fn consume_stack_argument(args: proc_macro2::TokenStream, app_mod: syn::ItemMod) -> (r: Result<
    PassOutput,
    PassError,
>)
    ensures
        consumed(args, app_mod, r),
{
    proof {
        reveal_strlit("core1_stack");
        reveal_strlit("cores");
    }
    let mut attr = match parse_app_attr(args) {
        Ok(attr) => attr,
        Err(e) => return Err(PassError::Syntax(e)),
    };

    // capture the place before removing the argument
    let span = match get_expr(&attr, "core1_stack") {
        Some(e) => Some(span_of(e)),
        None => None,
    };

    let requested = match take_usize(&mut attr, "core1_stack") {
        Ok(requested) => requested,
        Err(e) => return Err(PassError::Syntax(e)),
    };
    let cores = match requested {
        Some(_) => match parse_cores_arg(get_expr(&attr, "cores")) {
            Ok(cores) => cores,
            Err(e) => return Err(e),
        },
        None => None,
    };
    let stack_size = match core1_stack_size(requested, cores) {
        Ok(words) => words,
        Err(fault) => return Err(PassError::Rejected { span, message: fault.message() }),
    };

    let args = args_tokens(&attr);
    Ok(PassOutput { stack_size, args, app_mod })
}

/// What becomes of accepted arguments once the stack size was offered to the
/// information bus. `answer` is what the bus said, if there is a bus.
pub fn after_publish(out: PassOutput, answer: Option<Result<(), ()>>) -> (r: Result<
    PassOutput,
    PassError,
>)
    ensures
        answer matches Some(Err(_)) ==> r == Err::<PassOutput, PassError>(
            PassError::AlreadyPublished,
        ),
        !(answer matches Some(Err(_))) ==> r == Ok::<PassOutput, PassError>(out),
{
    match answer {
        Some(Err(_)) => Err(PassError::AlreadyPublished),
        _ => Ok(out),
    }
}

/// The pass that consumes the argument `core1_stack` and leaves the stack size
/// on the information bus.
pub struct Core1StackPass {
    pub info_bus: Option<rticx_core::InfoBus>,
}

impl Core1StackPass {
    pub fn new() -> (r: Self)
        ensures
            r.info_bus is None,
    {
        Core1StackPass { info_bus: None }
    }

    /// Connects the pass to the information bus.
    pub fn subscribe(&mut self, info_bus: rticx_core::InfoBus)
        ensures
            final(self).info_bus == Some(info_bus),
    {
        self.info_bus = Some(info_bus);
    }

    /// Runs the pass. With a bus, the stack size of accepted arguments is
    /// published; that fails where the bus holds one already.
    pub fn run_pass(&self, args: proc_macro2::TokenStream, app_mod: syn::ItemMod) -> (r: Result<
        PassOutput,
        PassError,
    >)
        ensures
            consumed(args, app_mod, r) || {
                &&& self.info_bus is Some
                &&& r matches Err(PassError::AlreadyPublished)
                &&& bus_refused(self.info_bus->Some_0, INFO_CORE1_STACK_SIZE@)
                &&& app_elements(args) matches Ok(elements) && stack_argument(elements) is Ok
            },
            r is Ok && self.info_bus is Some ==> bus_size(
                self.info_bus->Some_0,
                INFO_CORE1_STACK_SIZE@,
            ) == r->Ok_0.stack_size,
    {
        let out = match consume_stack_argument(args, app_mod) {
            Ok(out) => out,
            Err(e) => return Err(e),
        };
        let answer = match &self.info_bus {
            Some(bus) => Some(publish_size(bus, INFO_CORE1_STACK_SIZE, out.stack_size)),
            None => None,
        };
        after_publish(out, answer)
    }

    /// Name of the pass in error messages.
    pub fn pass_name(&self) -> (r: &'static str)
        ensures
            r@ == "Core1Stack"@,
    {
        "Core1Stack"
    }
}

/// The argument `core1_stack` does not reach the passes behind this one, and
/// every other argument does, with the value that it had.
pub proof fn law_only_stack_argument_consumed(
    elements: Map<Seq<char>, syn::Expr>,
    rest: Map<Seq<char>, syn::Expr>,
    key: Seq<char>,
)
    requires
        same_arguments(rest, elements.remove("core1_stack"@)),
    ensures
        !rest.contains_key("core1_stack"@),
        key != "core1_stack"@ ==> rest.contains_key(key) == elements.contains_key(key),
        key != "core1_stack"@ && elements.contains_key(key) ==> {
            &&& crate::attr::expr_text(rest[key]) == crate::attr::expr_text(elements[key])
            &&& expr_digits(rest[key]) == expr_digits(elements[key])
        },
{
    assert(rest.dom().contains("core1_stack"@) == elements.remove("core1_stack"@).dom().contains(
        "core1_stack"@,
    ));
    assert(rest.dom().contains(key) == elements.remove("core1_stack"@).dom().contains(key));
}

/// A stack size is only accepted for two cores and from the minimum on, and an
/// accepted one is taken as it is; without one the default holds.
pub proof fn law_stack_size_accepted(requested: Option<usize>, cores: Option<u32>)
    ensures
        requested is None ==> stack_rule(requested, cores) == Ok::<usize, StackFault>(4096),
        requested matches Some(n) ==> {
            stack_rule(requested, cores) is Ok <==> cores == Some(2u32) && n >= 1024
        },
        requested matches Some(n) ==> {
            stack_rule(requested, cores) matches Ok(words) ==> words == n
        },
        stack_rule(requested, cores) matches Ok(words) ==> words >= MIN_CORE1_STACK_SIZE,
{
}

/// The argument `core1_stack = n` makes a stack of `n` words exactly where
/// `cores = 2` stands beside it and `n` is at least the minimum.
pub proof fn law_stack_argument_accepted(elements: Map<Seq<char>, syn::Expr>, n: usize)
    requires
        elements.contains_key("core1_stack"@),
        expr_digits(elements["core1_stack"@]) is Some,
        decimal_value(expr_digits(elements["core1_stack"@])->Some_0) == Some(n as nat),
    ensures
        stack_argument(elements) is Ok <==> n >= 1024 && cores_value(
            argument(elements, "cores"@),
        ) == Ok::<Option<u32>, Refusal>(Some(2u32)),
        stack_argument(elements) matches Ok(words) ==> words == n,
{
}

} // verus!
