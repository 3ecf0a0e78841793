//! The arguments of the application attribute, as `rticx_core` and `syn` read
//! and write them.

use vstd::prelude::*;
use crate::text::decimal_value;

verus! {

/// The token stream of `proc_macro2`.
#[verifier::external_type_specification]
#[verifier::external_body]
pub struct ExTokenStream(proc_macro2::TokenStream);

/// A place in the user's source, from `proc_macro2`.
#[verifier::external_type_specification]
#[verifier::external_body]
pub struct ExSpan(proc_macro2::Span);

/// An expression, from `syn`.
#[verifier::external_type_specification]
#[verifier::external_body]
pub struct ExExpr(syn::Expr);

/// An integer literal, from `syn`.
#[verifier::external_type_specification]
#[verifier::external_body]
pub struct ExLitInt(syn::LitInt);

/// A module, from `syn`.
#[verifier::external_type_specification]
#[verifier::external_body]
pub struct ExItemMod(syn::ItemMod);

/// A parse error, from `syn`.
#[verifier::external_type_specification]
#[verifier::external_body]
pub struct ExSynError(syn::Error);

/// A parsed attribute, from `rticx_core`: a map from argument names to
/// expressions.
#[verifier::external_type_specification]
#[verifier::external_body]
pub struct ExRticAttr(rticx_core::parse_utils::RticAttr);

/// The arguments that an attribute holds, by name.
pub uninterp spec fn attr_elements(attr: rticx_core::parse_utils::RticAttr) -> Map<
    Seq<char>,
    syn::Expr,
>;

/// Every argument that the attribute holds was read from source by `syn`, its
/// name as an identifier and its value as an expression.
pub uninterp spec fn attr_parsed(attr: rticx_core::parse_utils::RticAttr) -> bool;

/// The arguments that a token stream spells, by name, or the text of the syntax
/// error.
pub uninterp spec fn app_elements(args: proc_macro2::TokenStream) -> Result<
    Map<Seq<char>, syn::Expr>,
    Seq<char>,
>;

/// Reading the tokens as the arguments of `app` can give the error `e`. Where the
/// tokens end too early, `e` points to the call of the running macro, so the
/// tokens alone do not fix it.
pub uninterp spec fn app_error(args: proc_macro2::TokenStream, e: syn::Error) -> bool;

/// The text that a parse error displays.
pub uninterp spec fn error_text(e: syn::Error) -> Seq<char>;

/// The place that a parse error was made for.
pub uninterp spec fn error_span(e: syn::Error) -> proc_macro2::Span;

/// The text of an expression's tokens.
pub uninterp spec fn expr_text(e: syn::Expr) -> Seq<char>;

/// The place of an expression in the source.
pub uninterp spec fn expr_span(e: syn::Expr) -> proc_macro2::Span;

/// The integer literal that an expression consists of, if it is one.
pub uninterp spec fn int_literal(e: syn::Expr) -> Option<syn::LitInt>;

/// The digits of an integer literal, in base ten.
pub uninterp spec fn lit_digits(lit: syn::LitInt) -> Seq<char>;

/// The place of an integer literal in the source.
pub uninterp spec fn lit_span(lit: syn::LitInt) -> proc_macro2::Span;

/// The text of the error that `str::parse` gives for a text that spells no
/// `usize`.
pub uninterp spec fn parse_usize_error(s: Seq<char>) -> Seq<char>;

/// The digits of an expression that is an integer literal.
pub open spec fn expr_digits(e: syn::Expr) -> Option<Seq<char>> {
    match int_literal(e) {
        Some(lit) => Some(lit_digits(lit)),
        None => None,
    }
}

/// Two argument maps have the same names, and under each name the same tokens
/// and the same integer literal, if any.
pub open spec fn same_arguments(
    a: Map<Seq<char>, syn::Expr>,
    b: Map<Seq<char>, syn::Expr>,
) -> bool {
    &&& a.dom() == b.dom()
    &&& forall|k: Seq<char>| #[trigger]
        a.contains_key(k) ==> expr_text(a[k]) == expr_text(b[k]) && expr_digits(a[k])
            == expr_digits(b[k])
}

/// What is said of an argument that is no integer literal.
pub open spec fn not_integer_text(key: Seq<char>) -> Seq<char> {
    "`"@ + key + "` must be an integer literal"@
}

/// Calls `RticAttr::parse_from_tokens` for the attribute `app`. The arguments
/// depend on the tokens alone, and so does the text of the error; the error is
/// one that reading the tokens gives.
#[verifier::external_body]
pub(crate) fn parse_app_attr(args: proc_macro2::TokenStream) -> (r: Result<
    rticx_core::parse_utils::RticAttr,
    syn::Error,
>)
    ensures
        match r {
            Ok(attr) => app_elements(args) == Ok::<Map<Seq<char>, syn::Expr>, Seq<char>>(
                attr_elements(attr),
            ) && attr_parsed(attr),
            Err(e) => app_elements(args) == Err::<Map<Seq<char>, syn::Expr>, Seq<char>>(
                error_text(e),
            ) && app_error(args, e),
        },
{
    let name = proc_macro2::Ident::new("app", proc_macro2::Span::call_site());
    rticx_core::parse_utils::RticAttr::parse_from_tokens(args, name)
}

/// Calls `RticAttr::get_expr`: the argument `key`, if the attribute holds it.
#[verifier::external_body]
pub(crate) fn get_expr<'a>(attr: &'a rticx_core::parse_utils::RticAttr, key: &str) -> (r: Option<
    &'a syn::Expr,
>)
    ensures
        match r {
            Some(e) => attr_elements(*attr).contains_key(key@) && *e == attr_elements(*attr)[key@],
            None => !attr_elements(*attr).contains_key(key@),
        },
{
    attr.get_expr(key)
}

/// Calls `RticAttr::take_usize`: removes the argument `key` and reads it as an
/// integer literal that fits in a `usize`. Only an argument that is there can
/// give an error, whose text says whether it is no integer literal or one that
/// `str::parse` refuses. The error is made for the place of the expression, or of
/// the literal.
#[verifier::external_body]
pub(crate) fn take_usize(attr: &mut rticx_core::parse_utils::RticAttr, key: &str) -> (r: Result<
    Option<usize>,
    syn::Error,
>)
    ensures
        attr_elements(*final(attr)) == attr_elements(*old(attr)).remove(key@),
        attr_parsed(*old(attr)) ==> attr_parsed(*final(attr)),
        match r {
            Ok(None) => !attr_elements(*old(attr)).contains_key(key@),
            Ok(Some(n)) => {
                &&& attr_elements(*old(attr)).contains_key(key@)
                &&& expr_digits(attr_elements(*old(attr))[key@]) matches Some(digits)
                    && decimal_value(digits) == Some(n as nat)
            },
            Err(e) => {
                &&& attr_elements(*old(attr)).contains_key(key@)
                &&& match int_literal(attr_elements(*old(attr))[key@]) {
                    None => {
                        &&& error_text(e) == not_integer_text(key@)
                        &&& error_span(e) == expr_span(attr_elements(*old(attr))[key@])
                    },
                    Some(lit) => {
                        &&& decimal_value(lit_digits(lit)) matches Some(v) ==> v > usize::MAX
                        &&& error_text(e) == not_integer_text(key@) + ": "@ + parse_usize_error(
                            lit_digits(lit),
                        )
                        &&& error_span(e) == lit_span(lit)
                    },
                }
            },
        },
{
    attr.take_usize(key)
}

/// Calls `RticAttr::args_tokens`: writes the arguments that the attribute holds,
/// in no particular order. Reading them back gives the same arguments. Nothing
/// is said of an attribute that was put together by hand.
#[verifier::external_body]
pub(crate) fn args_tokens(attr: &rticx_core::parse_utils::RticAttr) -> (r: proc_macro2::TokenStream)
    requires
        attr_parsed(*attr),
    ensures
        app_elements(r) is Ok,
        app_elements(r)->Ok_0.dom() == attr_elements(*attr).dom(),
        forall|k: Seq<char>| #[trigger]
            app_elements(r)->Ok_0.contains_key(k) ==> expr_text(app_elements(r)->Ok_0[k])
                == expr_text(attr_elements(*attr)[k]) && expr_digits(app_elements(r)->Ok_0[k])
                == expr_digits(attr_elements(*attr)[k]),
{
    attr.args_tokens()
}

/// Calls `Spanned::span` on an expression.
#[verifier::external_body]
pub(crate) fn span_of(e: &syn::Expr) -> (r: proc_macro2::Span)
    ensures
        r == expr_span(*e),
{
    syn::spanned::Spanned::span(e)
}

/// Looks at a `syn::Expr`: the integer literal that it consists of, if it is one.
#[verifier::external_body]
pub(crate) fn as_int_literal(e: &syn::Expr) -> (r: Option<&syn::LitInt>)
    ensures
        match r {
            Some(lit) => int_literal(*e) == Some(*lit),
            None => int_literal(*e) is None,
        },
{
    match e {
        syn::Expr::Lit(syn::ExprLit { lit: syn::Lit::Int(lit), .. }) => Some(lit),
        _ => None,
    }
}

/// Calls `LitInt::base10_digits`.
#[verifier::external_body]
pub(crate) fn base10_digits(lit: &syn::LitInt) -> (r: &str)
    ensures
        r@ == lit_digits(*lit),
{
    lit.base10_digits()
}

/// Calls `LitInt::span`.
#[verifier::external_body]
pub(crate) fn literal_span(lit: &syn::LitInt) -> (r: proc_macro2::Span)
    ensures
        r == lit_span(*lit),
{
    lit.span()
}

} // verus!
