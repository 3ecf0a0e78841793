//! The `async` task that encrypts and hashes the lines it is sent.

use vstd::prelude::*;
use vstd::slice::slice_to_vec;
use vstd::utf8::encode_utf8;
use super::cipher::{ciphered, hashed, xor_cipher, xor_hash};
use super::effect::{effect_views, push_text, write_text, Effect, EffectView};
use super::line::{line_str, line_text};
use crate::text::decimal;

verus! {

/// What the task has waited for.
pub enum Received {
    /// A line from the receiver.
    Line(heapless::String<30>),
    /// The receiver is gone.
    Closed,
}

/// What the task does next.
#[derive(Clone, Copy, Debug, PartialEq, Eq, Structural)]
pub enum Next {
    /// Wait for another line.
    Wait,
    /// End.
    Exit,
}

/// What the task writes about a line with the bytes `data`: the line, its
/// encryption, and the hash of the encryption.
pub open spec fn line_effects(data: Seq<u8>) -> Seq<EffectView> {
    seq![
        EffectView::Write(
            encode_utf8("Async: received \""@) + data + encode_utf8("\", encrypting...\r\n"@),
        ),
        EffectView::Write(
            encode_utf8("Async: encrypted -> \""@) + ciphered(data) + encode_utf8("\"\r\n"@),
        ),
        EffectView::Write(encode_utf8("Async: computing hash...\r\n"@)),
        EffectView::Write(
            encode_utf8("Async: hash = "@) + encode_utf8(decimal(hashed(ciphered(data)) as nat))
                + encode_utf8("\r\n"@),
        ),
    ]
}

/// Calls `itoa::Buffer::format` for a `u32`: its decimal text.
#[verifier::external_body]
fn format_u32(n: u32) -> (r: String)
    ensures
        r@ == decimal(n as nat),
{
    itoa::Buffer::new().format(n).to_owned()
}

/// The task that processes lines.
pub struct AsyncProcessor;

impl AsyncProcessor {
    pub fn init() -> (r: Self)
        ensures
            r == AsyncProcessor,
    {
        AsyncProcessor
    }

    /// What the task does before it waits for the first line.
    pub fn start(&self) -> (r: Effect)
        ensures
            r@ == EffectView::Write(
                encode_utf8("Async: processor started, waiting for data...\r\n"@),
            ),
    {
        write_text("Async: processor started, waiting for data...\r\n")
    }

    /// What the task does with what it has waited for. It ends when the receiver
    /// is gone and waits again otherwise.
    pub fn exec(&self, received: &Received) -> (r: (Vec<Effect>, Next))
        ensures
            match *received {
                Received::Line(line) => {
                    &&& effect_views(r.0@) == line_effects(encode_utf8(line_text(line)))
                    &&& r.1 == Next::Wait
                },
                Received::Closed => {
                    &&& effect_views(r.0@) == seq![
                        EffectView::Write(encode_utf8("Async: channel closed, exiting.\r\n"@)),
                    ]
                    &&& r.1 == Next::Exit
                },
            },
    {
        let mut effects: Vec<Effect> = Vec::new();
        match received {
            Received::Closed => {
                effects.push(write_text("Async: channel closed, exiting.\r\n"));
                assert(effect_views(effects@) =~= seq![
                    EffectView::Write(encode_utf8("Async: channel closed, exiting.\r\n"@)),
                ]);
                (effects, Next::Exit)
            },
            Received::Line(line) => {
                let text = line_str(line);
                let mut out: Vec<u8> = Vec::new();
                push_text(&mut out, "Async: received \"");
                push_text(&mut out, text);
                push_text(&mut out, "\", encrypting...\r\n");
                effects.push(Effect::Write(out));

                let mut data: Vec<u8> = slice_to_vec(text.as_bytes());
                let ghost plain = data@;
                xor_cipher(&mut data);
                let hash: u32 = xor_hash(&data);

                let mut out: Vec<u8> = Vec::new();
                push_text(&mut out, "Async: encrypted -> \"");
                out.append(&mut data);
                push_text(&mut out, "\"\r\n");
                effects.push(Effect::Write(out));

                effects.push(write_text("Async: computing hash...\r\n"));

                let mut out: Vec<u8> = Vec::new();
                push_text(&mut out, "Async: hash = ");
                push_text(&mut out, format_u32(hash).as_str());
                push_text(&mut out, "\r\n");
                effects.push(Effect::Write(out));
                assert(effect_views(effects@) =~= line_effects(plain));
                (effects, Next::Wait)
            },
        }
    }
}

} // verus!
