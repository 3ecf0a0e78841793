//! An application for two cores that spawn each other's task in turn.

use vstd::prelude::*;

verus! {

/// The idle task of core 0.
pub struct MyIdleTask {
    /// Passes of the idle loop so far.
    pub count: u32,
}

impl MyIdleTask {
    /// One pass of the idle loop.
    pub fn exec(&mut self)
        requires
            old(self).count < u32::MAX,
        ensures
            final(self).count == old(self).count + 1,
    {
        self.count += 1;
    }
}

/// The message that starts the exchange, sent to core 0 by core 1.
pub const FIRST_PING: u32 = 1;

/// The task of core 0, which core 1 spawns.
pub struct Core0Task;

impl Core0Task {
    /// The message that answers `ping`.
    pub open spec fn reply(ping: nat) -> nat {
        ping + 1
    }

    /// The message that is sent back to core 1. The task runs on core 0.
    pub fn exec(&self, core_id: u32, ping: u32) -> (pong: u32)
        requires
            core_id == 0,
            ping < u32::MAX,
        ensures
            pong == Self::reply(ping as nat),
    {
        ping + 1
    }
}

/// The task of core 1, which core 0 spawns.
pub struct Core1Task;

impl Core1Task {
    /// The message that answers `pong`.
    pub open spec fn reply(pong: nat) -> nat {
        pong + 1
    }

    /// The message that is sent back to core 0. The task runs on core 1.
    pub fn exec(&self, core_id: u32, pong: u32) -> (ping: u32)
        requires
            core_id == 1,
            pong < u32::MAX,
        ensures
            ping == Self::reply(pong as nat),
    {
        pong + 1
    }
}

/// The message that the `n`th spawned task receives, counted from zero, and the
/// core that it runs on. Each task answers on the other core.
pub open spec fn exchange(n: nat) -> (nat, nat)
    decreases n,
{
    if n == 0 {
        (FIRST_PING as nat, 0)
    } else {
        let (message, core) = exchange((n - 1) as nat);
        if core == 0 {
            (Core0Task::reply(message), 1)
        } else {
            (Core1Task::reply(message), 0)
        }
    }
}

/// The messages count up by one from the first, core 0 receives the odd ones and
/// core 1 the even ones.
pub proof fn law_cores_alternate(n: nat)
    ensures
        exchange(n).0 == n + 1,
        exchange(n).1 == n % 2,
        exchange(n).1 == 0 <==> exchange(n).0 % 2 == 1,
    decreases n,
{
    if n > 0 {
        law_cores_alternate((n - 1) as nat);
    }
}

} // verus!
