//! An application for one core: commands arrive on a serial line, blink a light
//! or go through an `async` task that encrypts and hashes them.

pub mod cipher;
pub mod effect;
pub mod line;
pub mod processor;
pub mod receiver;
pub mod toggler;

use vstd::prelude::*;
use vstd::utf8::encode_utf8;
use effect::{effect_views, write_text, Effect, EffectView};

verus! {

/// What the application writes when it starts.
pub fn welcome() -> (r: Vec<Effect>)
    ensures
        effect_views(r@) == seq![
            EffectView::Write(encode_utf8("Welcome to Async Multitasker\r\n"@)),
            EffectView::Write(encode_utf8("Commands: b <count> <duration> | x <data>\r\n"@)),
            EffectView::Write(encode_utf8("  b = blink LED   x = process via async task\r\n"@)),
        ],
{
    let mut effects: Vec<Effect> = Vec::new();
    effects.push(write_text("Welcome to Async Multitasker\r\n"));
    effects.push(write_text("Commands: b <count> <duration> | x <data>\r\n"));
    effects.push(write_text("  b = blink LED   x = process via async task\r\n"));
    assert(effect_views(effects@) =~= seq![
        EffectView::Write(encode_utf8("Welcome to Async Multitasker\r\n"@)),
        EffectView::Write(encode_utf8("Commands: b <count> <duration> | x <data>\r\n"@)),
        EffectView::Write(encode_utf8("  b = blink LED   x = process via async task\r\n"@)),
    ]);
    effects
}

} // verus!
