//! The parts of a parsed RTICX application that the code generation rules read.

use vstd::prelude::*;

verus! {

/// Arguments of the application attribute.
pub struct AppArgs {
    /// Path of the peripheral access crate of each core.
    pub pacs: Vec<String>,
    /// Number of cores that the application runs on.
    pub cores: u32,
}

/// A task that an interrupt runs.
pub struct HardwareTask {
    /// Interrupt that the task is bound to.
    pub binds: Option<String>,
    /// Priority of the task: `0` is the idle priority, higher is more urgent.
    pub priority: u16,
}

/// The part of an application that runs on one core.
pub struct SubApp {
    /// Core that runs this part.
    pub core: u32,
    /// Tasks of this part, in source order.
    pub tasks: Vec<HardwareTask>,
}

/// An interrupt that the application uses, with its priority.
pub struct UsedIrq {
    pub name: String,
    pub priority: u16,
}

/// Compilation passes that the distribution is built with.
#[derive(Clone, Copy, PartialEq, Eq, Structural)]
pub struct Features {
    /// Cores are assigned to tasks automatically.
    pub autoassign: bool,
    /// Software tasks, core-local and cross-core.
    pub swtasks: bool,
    /// Software tasks that are `async`.
    pub async_tasks: bool,
}

impl Features {
    /// Tasks can be spawned from one core to the other, which takes the
    /// inter-core FIFO and its interrupts.
    pub open spec fn spec_uses_fifo(self) -> bool {
        self.async_tasks || self.swtasks
    }

    /// Tells whether tasks can be spawned from one core to the other.
    pub fn uses_fifo(&self) -> (r: bool)
        ensures
            r == self.spec_uses_fifo(),
    {
        self.async_tasks || self.swtasks
    }
}

impl View for UsedIrq {
    type V = (Seq<char>, u16);

    open spec fn view(&self) -> (Seq<char>, u16) {
        (self.name@, self.priority)
    }
}

impl View for HardwareTask {
    type V = (Option<Seq<char>>, u16);

    open spec fn view(&self) -> (Option<Seq<char>>, u16) {
        (
            match self.binds {
                Some(name) => Some(name@),
                None => None,
            },
            self.priority,
        )
    }
}

} // verus!
