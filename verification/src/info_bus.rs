//! The bus on which compilation passes leave information for each other.

use vstd::prelude::*;

verus! {

/// The information bus, from `rticx_core`. Its entries are shared by everyone
/// who holds the bus.
#[verifier::external_type_specification]
#[verifier::external_body]
pub struct ExInfoBus(rticx_core::InfoBus);

/// The size that the bus holds under `entry`, from when one is published there:
/// an entry is written once and never changed or removed.
pub uninterp spec fn bus_size(bus: rticx_core::InfoBus, entry: Seq<char>) -> usize;

/// At some time, a look for a size under `entry` of the bus gives `found`.
pub uninterp spec fn bus_gave(
    bus: rticx_core::InfoBus,
    entry: Seq<char>,
    found: Option<usize>,
) -> bool;

/// At some time, the bus refuses to take anything under `entry`, since something
/// was published there before.
pub uninterp spec fn bus_refused(bus: rticx_core::InfoBus, entry: Seq<char>) -> bool;

/// Calls `InfoBus::publish` for a `usize`. Where it succeeds, the size under
/// `entry` is `value`; where it fails, the bus has refused the entry. Nothing is
/// said of when it fails, since that depends on what others have published. Like
/// every use of the bus, it panics where a panic has poisoned the lock of the
/// bus.
#[verifier::external_body]
pub(crate) fn publish_size(bus: &rticx_core::InfoBus, entry: &str, value: usize) -> (r: Result<
    (),
    (),
>)
    ensures
        r is Ok ==> bus_size(*bus, entry@) == value,
        r is Err ==> bus_refused(*bus, entry@),
{
    bus.publish(entry, value).map_err(|_| ())
}

/// Calls `InfoBus::get` for a `usize`. The result is what a look at the bus gives,
/// and a size that it finds is the one that was published under `entry`. Nothing
/// is said of when it finds one, since that depends on what has been published so
/// far; two looks may differ. Like every use of the bus, it panics where a panic
/// has poisoned the lock of the bus.
#[verifier::external_body]
pub(crate) fn published_size(bus: &rticx_core::InfoBus, entry: &str) -> (r: Option<usize>)
    ensures
        bus_gave(*bus, entry@, r),
        r matches Some(value) ==> value == bus_size(*bus, entry@),
{
    bus.get::<usize>(entry).ok().map(|v| *v)
}

/// `found` is what a look at `entry` can give: with a bus, what the bus gives,
/// which is nothing or the size that was published there; without one, nothing.
pub open spec fn may_find(
    bus: Option<rticx_core::InfoBus>,
    entry: Seq<char>,
    found: Option<usize>,
) -> bool {
    match bus {
        Some(bus) => {
            &&& bus_gave(bus, entry, found)
            &&& found matches Some(value) ==> value == bus_size(bus, entry)
        },
        None => found is None,
    }
}

} // verus!
