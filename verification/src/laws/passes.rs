//! Which passes run.

use vstd::prelude::*;
use crate::model::Features;
use crate::passes::{app, pass_order, FeatureConflict, Pass};

verus! {

/// Software tasks and `async` tasks are refused together and nothing else is.
/// Each optional pass runs exactly where its own feature is enabled, whatever the
/// others are, and no pass runs twice.
pub proof fn law_passes_follow_features(
    features: Features,
    r: Result<Vec<Pass>, FeatureConflict>,
)
    requires
        call_ensures(app, (features,), r),
    ensures
        r is Err <==> features.swtasks && features.async_tasks,
        r matches Ok(passes) ==> {
            &&& passes@.contains(Pass::Core1Stack)
            &&& passes@.contains(Pass::AutoAssign) <==> features.autoassign
            &&& passes@.contains(Pass::Software) <==> features.swtasks
            &&& passes@.contains(Pass::Async) <==> features.async_tasks
            &&& passes@.no_duplicates()
        },
{
    if let Ok(passes) = r {
        let p = passes@;
        let software: int = if features.autoassign {
            2
        } else {
            1
        };
        assert(p[0] == Pass::Core1Stack);
        if features.autoassign {
            assert(p[1] == Pass::AutoAssign);
        }
        if features.swtasks {
            assert(p[software] == Pass::Software);
        }
        if features.async_tasks {
            assert(p[software] == Pass::Async);
        }
    }
}

/// The stack argument is consumed before any other pass sees it, and cores are
/// assigned before tasks are expanded.
pub proof fn law_passes_in_order(
    features: Features,
    r: Result<Vec<Pass>, FeatureConflict>,
    i: int,
    j: int,
)
    requires
        call_ensures(app, (features,), r),
        r is Ok,
        0 <= i < j < r->Ok_0@.len(),
    ensures
        r->Ok_0@[0] == Pass::Core1Stack,
        r->Ok_0@[j] != Pass::Core1Stack,
        r->Ok_0@[j] == Pass::AutoAssign ==> r->Ok_0@[i] == Pass::Core1Stack,
{
    assert(r->Ok_0@ == pass_order(features));
}

/// A feature adds its own pass and leaves the others, in their order.
pub proof fn law_features_are_independent(
    a: Features,
    b: Features,
    ra: Result<Vec<Pass>, FeatureConflict>,
    rb: Result<Vec<Pass>, FeatureConflict>,
)
    requires
        call_ensures(app, (a,), ra),
        call_ensures(app, (b,), rb),
        ra is Ok,
        rb is Ok,
        a.autoassign && !b.autoassign,
        a.swtasks == b.swtasks,
        a.async_tasks == b.async_tasks,
    ensures
        ra->Ok_0@.remove_value(Pass::AutoAssign) == rb->Ok_0@,
{
    let (p, q) = (ra->Ok_0@, rb->Ok_0@);
    assert(p[1] == Pass::AutoAssign);
    assert(p[0] != Pass::AutoAssign);
    p.index_of_first_ensures(Pass::AutoAssign);
    assert(p.contains(Pass::AutoAssign));
    let i = p.index_of_first(Pass::AutoAssign)->Some_0;
    assert(i == 1);
    assert(p.remove_value(Pass::AutoAssign) =~= q);
}

} // verus!
