//! What the two cores send each other.

use vstd::prelude::*;
use crate::ping_pong::{Core0Task, Core1Task, MyIdleTask, FIRST_PING};

verus! {

/// Every answer is one more than the message, on either core, so a round through
/// both adds two and neither core ever sees a message of the other's parity.
pub proof fn law_round(
    zero: &Core0Task,
    one: &Core1Task,
    ping: u32,
    pong: u32,
    next: u32,
)
    requires
        call_ensures(Core0Task::exec, (zero, 0u32, ping), pong),
        call_ensures(Core1Task::exec, (one, 1u32, pong), next),
    ensures
        pong - ping == 1,
        next - pong == 1,
        ping % 2 == FIRST_PING % 2 ==> next % 2 == 1 && pong % 2 == 0,
{
}

/// A pass of the idle loop is counted once.
pub proof fn law_idle_counts(task: &mut MyIdleTask)
    requires
        call_ensures(MyIdleTask::exec, (task,), ()),
    ensures
        final(task).count - old(task).count == 1,
{
}

} // verus!
