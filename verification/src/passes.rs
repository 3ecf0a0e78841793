//! Which compilation passes make up the `app` attribute.

use vstd::prelude::*;
use crate::model::Features;

verus! {

/// A pass that runs before the core pass.
#[derive(Clone, Copy, Debug, PartialEq, Eq, Structural)]
pub enum Pass {
    /// Consumes the `core1_stack` argument.
    Core1Stack,
    /// Assigns tasks to cores.
    AutoAssign,
    /// Expands software tasks.
    Software,
    /// Expands `async` software tasks.
    Async,
}

/// Two features are enabled that exclude each other.
#[derive(Clone, Copy, Debug, PartialEq, Eq, Structural)]
pub struct FeatureConflict;

impl FeatureConflict {
    /// The text that the user sees.
    pub fn message(&self) -> (r: &'static str)
        ensures
            r@
                == "rticx-rp2040-macro: the `swtasks` and `async` features are mutually exclusive; enable at most one"@,
    {
        "rticx-rp2040-macro: the `swtasks` and `async` features are mutually exclusive; enable at most one"
    }
}

/// `pass` where it is enabled, nothing otherwise.
pub open spec fn enabled(on: bool, pass: Pass) -> Seq<Pass> {
    if on {
        seq![pass]
    } else {
        Seq::empty()
    }
}

/// The passes of a distribution with these features, in the order they run.
pub open spec fn pass_order(features: Features) -> Seq<Pass> {
    seq![Pass::Core1Stack] + enabled(features.autoassign, Pass::AutoAssign) + enabled(
        features.swtasks,
        Pass::Software,
    ) + enabled(features.async_tasks, Pass::Async)
}

/// The passes that the `app` attribute runs before the core pass, in order.
/// Software tasks and `async` software tasks exclude each other.
pub fn app(features: Features) -> (r: Result<Vec<Pass>, FeatureConflict>)
    ensures
        r is Err <==> features.swtasks && features.async_tasks,
        r matches Ok(passes) ==> passes@ == pass_order(features),
{
    if features.swtasks && features.async_tasks {
        return Err(FeatureConflict);
    }
    let mut passes: Vec<Pass> = Vec::new();
    // consumes the `core1_stack` argument, hands everything else on
    passes.push(Pass::Core1Stack);
    if features.autoassign {
        passes.push(Pass::AutoAssign);
    }
    if features.swtasks {
        passes.push(Pass::Software);
    }
    if features.async_tasks {
        passes.push(Pass::Async);
    }
    assert(passes@ =~= pass_order(features));
    Ok(passes)
}

/// The stack argument is consumed before any other pass sees it, and tasks are
/// assigned to cores before software tasks are expanded.
pub proof fn law_pass_order(features: Features, i: int, j: int)
    requires
        0 <= i < pass_order(features).len(),
        0 <= j < pass_order(features).len(),
    ensures
        pass_order(features)[0] == Pass::Core1Stack,
        i > 0 ==> pass_order(features)[i] != Pass::Core1Stack,
        pass_order(features)[i] == Pass::AutoAssign && (pass_order(features)[j] == Pass::Software
            || pass_order(features)[j] == Pass::Async) ==> i < j,
{
}

} // verus!
