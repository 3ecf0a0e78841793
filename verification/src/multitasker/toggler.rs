//! The task that blinks the light, once for every alarm.

use vstd::prelude::*;
use vstd::utf8::encode_utf8;
use super::effect::{effect_views, write_text, Effect, EffectView};

verus! {

/// The task that an alarm runs. It keeps nothing between two alarms.
pub struct TimedLedToggler;

/// The number of blinks that are left after one more.
pub open spec fn blinks_left(ticks: u32) -> u32 {
    if ticks == 0 {
        0
    } else {
        (ticks - 1) as u32
    }
}

/// What an alarm makes the task do, with `ticks` blinks left before it and
/// `duration` milliseconds between two blinks.
pub open spec fn alarm_effects(duration: u32, ticks: u32) -> Seq<EffectView> {
    let left = blinks_left(ticks);
    if left == 0 {
        seq![
            EffectView::StoreTicks(left),
            EffectView::ToggleLed,
            EffectView::Write(encode_utf8("finished pattern!\r\n"@)),
            EffectView::ClearAlarm,
        ]
    } else {
        seq![
            EffectView::StoreTicks(left),
            EffectView::ToggleLed,
            EffectView::Schedule(duration),
            EffectView::ClearAlarm,
        ]
    }
}

impl TimedLedToggler {
    pub fn init() -> (r: Self)
        ensures
            r == TimedLedToggler,
    {
        TimedLedToggler
    }

    /// Handles one alarm: the light is toggled, and the next alarm is scheduled
    /// while blinks are left.
    pub fn exec(&self, duration: u32, ticks: u32) -> (r: Vec<Effect>)
        ensures
            effect_views(r@) == alarm_effects(duration, ticks),
    {
        let left: u32 = ticks.saturating_sub(1);
        let mut effects: Vec<Effect> = Vec::new();
        effects.push(Effect::StoreTicks(left));
        effects.push(Effect::ToggleLed);
        if left == 0 {
            effects.push(write_text("finished pattern!\r\n"));
        }
        if left != 0 {
            effects.push(Effect::Schedule(duration));
        }
        effects.push(Effect::ClearAlarm);
        assert(effect_views(effects@) =~= alarm_effects(duration, ticks));
        effects
    }
}

/// Calls `fugit::MicrosDurationU32::millis` and reads its ticks: the number of
/// microseconds in `val` milliseconds. The multiplication in `fugit` must not
/// overflow.
#[verifier::external_body]
fn micros_in_millis(val: u32) -> (r: u32)
    requires
        val * 1000 <= u32::MAX,
    ensures
        r == val * 1000,
{
    fugit::MicrosDurationU32::millis(val).ticks()
}

/// The alarm delay of `millis` milliseconds in microseconds, the unit of the
/// timer.
pub fn alarm_micros(millis: u32) -> (r: u32)
    requires
        millis * 1000 <= u32::MAX,
    ensures
        r == millis * 1000,
{
    micros_in_millis(millis)
}

/// Everything that the alarms of a pattern make the task do, from `ticks` blinks
/// left until no further alarm is scheduled.
pub open spec fn pattern_effects(duration: u32, ticks: u32) -> Seq<EffectView>
    decreases ticks,
{
    if blinks_left(ticks) == 0 {
        alarm_effects(duration, ticks)
    } else {
        alarm_effects(duration, ticks) + pattern_effects(duration, blinks_left(ticks))
    }
}

proof fn lemma_alarm_counts(duration: u32, ticks: u32)
    ensures
        ({
            let counts = alarm_effects(duration, ticks).to_multiset();
            &&& counts.count(EffectView::ToggleLed) == 1
            &&& counts.count(EffectView::ClearAlarm) == 1
            &&& counts.count(EffectView::Schedule(duration)) == if ticks > 1 {
                1nat
            } else {
                0
            }
            &&& counts.count(EffectView::Write(encode_utf8("finished pattern!\r\n"@)))
                == if ticks > 1 {
                0nat
            } else {
                1
            }
        }),
{
    broadcast use vstd::seq_lib::group_to_multiset_ensures;

    let left = blinks_left(ticks);
    let third = if left == 0 {
        EffectView::Write(encode_utf8("finished pattern!\r\n"@))
    } else {
        EffectView::Schedule(duration)
    };
    assert(alarm_effects(duration, ticks) =~= Seq::<EffectView>::empty().push(
        EffectView::StoreTicks(left),
    ).push(EffectView::ToggleLed).push(third).push(EffectView::ClearAlarm));
}

/// A pattern of `ticks` blinks toggles the light as often, and once where none
/// was asked for. An alarm is scheduled between two blinks, and the end is
/// reported once.
pub proof fn law_pattern(duration: u32, ticks: u32)
    ensures
        ({
            let counts = pattern_effects(duration, ticks).to_multiset();
            let blinks = if ticks == 0 {
                1nat
            } else {
                ticks as nat
            };
            &&& counts.count(EffectView::ToggleLed) == blinks
            &&& counts.count(EffectView::ClearAlarm) == blinks
            &&& counts.count(EffectView::Schedule(duration)) == blinks - 1
            &&& counts.count(EffectView::Write(encode_utf8("finished pattern!\r\n"@))) == 1
        }),
    decreases ticks,
{
    lemma_alarm_counts(duration, ticks);
    if blinks_left(ticks) > 0 {
        law_pattern(duration, blinks_left(ticks));
        vstd::seq_lib::lemma_multiset_commutative(
            alarm_effects(duration, ticks),
            pattern_effects(duration, blinks_left(ticks)),
        );
    }
}

} // verus!
