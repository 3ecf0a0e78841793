//! What a task asks the hardware to do.

use vstd::prelude::*;
use vstd::string::StrSliceExecFns;
use vstd::utf8::encode_utf8;
use super::line::line_text;

verus! {

/// One request of a task, to be carried out in the order given.
pub enum Effect {
    /// Write these bytes to the serial line, without letting another task write
    /// in between.
    Write(Vec<u8>),
    /// Store the number of blinks that are left.
    StoreTicks(u32),
    /// Store the time between two blinks, in milliseconds.
    StoreDuration(u32),
    /// Raise the alarm after this many milliseconds.
    Schedule(u32),
    /// Acknowledge the alarm.
    ClearAlarm,
    /// Switch the light from on to off or from off to on.
    ToggleLed,
    /// Hand the line to the `async` task, if there is room for it.
    Send(heapless::String<30>),
}

/// A request in terms of what it holds.
pub enum EffectView {
    Write(Seq<u8>),
    StoreTicks(u32),
    StoreDuration(u32),
    Schedule(u32),
    ClearAlarm,
    ToggleLed,
    Send(Seq<char>),
}

impl View for Effect {
    type V = EffectView;

    open spec fn view(&self) -> EffectView {
        match *self {
            Effect::Write(bytes) => EffectView::Write(bytes@),
            Effect::StoreTicks(n) => EffectView::StoreTicks(n),
            Effect::StoreDuration(ms) => EffectView::StoreDuration(ms),
            Effect::Schedule(ms) => EffectView::Schedule(ms),
            Effect::ClearAlarm => EffectView::ClearAlarm,
            Effect::ToggleLed => EffectView::ToggleLed,
            Effect::Send(line) => EffectView::Send(line_text(line)),
        }
    }
}

/// Requests in terms of what they hold.
pub open spec fn effect_views(effects: Seq<Effect>) -> Seq<EffectView> {
    effects.map_values(|e: Effect| e@)
}

/// Appends the encoding of `text` to `out`.
pub(crate) fn push_text(out: &mut Vec<u8>, text: &str)
    ensures
        final(out)@ == old(out)@ + encode_utf8(text@),
{
    let mut bytes = text.as_bytes_vec();
    out.append(&mut bytes);
}

/// Writes `text` to the serial line.
pub(crate) fn write_text(text: &str) -> (r: Effect)
    ensures
        r@ == EffectView::Write(encode_utf8(text@)),
{
    Effect::Write(text.as_bytes_vec())
}

} // verus!
