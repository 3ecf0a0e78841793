//! The task that reads commands from the serial line, byte by byte.

use vstd::prelude::*;
use vstd::slice::slice_to_vec;
use vstd::utf8::{encode_utf8, is_ascii_chars, is_ascii_chars_encode_utf8};
use super::effect::{effect_views, push_text, write_text, Effect, EffectView};
use super::line::{
    fits, line_clear, line_clone, line_new, line_push, line_str, line_text, split_first, split_once,
};
use crate::text::{
    decimal, decimal_value, law_decimal_is_digits, law_decimal_reads_back, parse_u32,
};

verus! {

/// What a command line asks for, by its first byte.
#[derive(Clone, Copy, Debug, PartialEq, Eq, Structural)]
pub enum Command {
    Blink,
    Process,
    Unknown,
}

/// The command that the byte `b` stands for.
pub open spec fn command_of(b: u8) -> Command {
    if b as char == 'b' {
        Command::Blink
    } else if b as char == 'x' {
        Command::Process
    } else {
        Command::Unknown
    }
}

/// State of the receiver: the command line as far as it was read.
pub struct CommandReceiverTask {
    /// The line after the command byte.
    pub data: heapless::String<30>,
    pub command: Command,
    /// The next byte is a command byte.
    pub read_command: bool,
}

/// State of the receiver in terms of what it holds.
pub struct ReceiverView {
    pub text: Seq<char>,
    pub command: Command,
    pub read_command: bool,
}

impl View for CommandReceiverTask {
    type V = ReceiverView;

    open spec fn view(&self) -> ReceiverView {
        ReceiverView {
            text: line_text(self.data),
            command: self.command,
            read_command: self.read_command,
        }
    }
}

/// The receiver between two command lines.
pub open spec fn waiting() -> ReceiverView {
    ReceiverView { text: Seq::empty(), command: Command::Unknown, read_command: true }
}

/// The number that an argument spells, zero where it spells none.
pub open spec fn number_or_zero(text: Seq<char>) -> u32 {
    match decimal_value(text) {
        Some(v) if v <= u32::MAX => v as u32,
        _ => 0,
    }
}

/// The arguments of a blink command: the number of blinks, a space, and the time
/// between two of them in milliseconds. A line without a space gives zeros.
pub open spec fn blink_arguments(text: Seq<char>) -> (u32, u32) {
    match split_first(text, ' ') {
        Some((blinks, duration)) => (number_or_zero(blinks), number_or_zero(duration)),
        None => (0, 0),
    }
}

/// What a complete command line makes the receiver do.
pub open spec fn command_effects(state: ReceiverView) -> Seq<EffectView> {
    match state.command {
        Command::Blink => {
            let (blinks, duration) = blink_arguments(state.text);
            seq![
                EffectView::StoreTicks(blinks),
                EffectView::StoreDuration(duration),
                EffectView::Write(encode_utf8("Starting blinky ...\r\n"@)),
                EffectView::Schedule(duration),
            ]
        },
        Command::Process => seq![
            EffectView::Write(
                encode_utf8("Sending to async processor: "@) + encode_utf8(state.text)
                    + encode_utf8("\r\n"@),
            ),
            EffectView::Send(state.text),
        ],
        Command::Unknown => seq![EffectView::Write(encode_utf8("Unknown command!\r\n"@))],
    }
}

/// The byte ends a command line.
pub open spec fn ends_line(b: u8) -> bool {
    b as char == '\n' || b as char == '\r'
}

/// The receiver after one byte, and what it does on that byte. The first byte of
/// a line is its command, whatever it is; spaces between the command and its
/// text are skipped, and what does not fit in the line is dropped.
pub open spec fn step(state: ReceiverView, b: u8) -> (ReceiverView, Seq<EffectView>) {
    if state.read_command {
        (
            ReceiverView { text: state.text, command: command_of(b), read_command: false },
            Seq::empty(),
        )
    } else if ends_line(b) {
        (waiting(), command_effects(state))
    } else if (b as char != ' ' || state.text.len() > 0) && fits(state.text.push(b as char)) {
        (ReceiverView { text: state.text.push(b as char), ..state }, Seq::empty())
    } else {
        (state, Seq::empty())
    }
}

/// The receiver after a run of bytes, and what it does on them.
pub open spec fn run(state: ReceiverView, bytes: Seq<u8>) -> (ReceiverView, Seq<EffectView>)
    decreases bytes.len(),
{
    if bytes.len() == 0 {
        (state, Seq::empty())
    } else {
        let (before, effects) = run(state, bytes.drop_last());
        let (after, more) = step(before, bytes.last());
        (after, effects + more)
    }
}

/// What holds of every state that the receiver reaches: the text fits in the
/// line, holds no line end and does not start with a space, and between two
/// lines nothing is left of the last one.
pub open spec fn valid(state: ReceiverView) -> bool {
    &&& fits(state.text)
    &&& forall|i: int|
        0 <= i < state.text.len() ==> #[trigger] state.text[i] != '\n' && state.text[i] != '\r'
    &&& state.text.len() > 0 ==> state.text[0] != ' '
    &&& state.read_command ==> state == waiting()
}

fn parse_or_zero(text: &str) -> (r: u32)
    ensures
        r == number_or_zero(text@),
{
    match parse_u32(text) {
        Ok(n) => n,
        Err(_) => 0,
    }
}

impl CommandReceiverTask {
    /// A receiver that has read nothing yet.
    pub fn init() -> (r: Self)
        ensures
            r@ == waiting(),
    {
        CommandReceiverTask { data: line_new(), command: Command::Unknown, read_command: true }
    }

    /// Handles the bytes that the serial line has received: they are echoed, and
    /// every line that they complete is carried out.
    pub fn exec(&mut self, bytes: &[u8]) -> (r: Vec<Effect>)
        ensures
            final(self)@ == run(old(self)@, bytes@).0,
            effect_views(r@) == seq![EffectView::Write(bytes@)] + run(old(self)@, bytes@).1,
    {
        let mut effects: Vec<Effect> = Vec::new();
        effects.push(Effect::Write(slice_to_vec(bytes)));
        let ghost start = self@;
        let mut i: usize = 0;
        proof {
            assert(bytes@.take(0) =~= Seq::<u8>::empty());
            assert(effect_views(effects@) =~= seq![EffectView::Write(bytes@)] + run(
                start,
                bytes@.take(0),
            ).1);
        }
        while i < bytes.len()
            invariant
                i <= bytes@.len(),
                self@ == run(start, bytes@.take(i as int)).0,
                effect_views(effects@) == seq![EffectView::Write(bytes@)] + run(
                    start,
                    bytes@.take(i as int),
                ).1,
            decreases bytes@.len() - i,
        {
            proof {
                assert(bytes@.take(i + 1).drop_last() =~= bytes@.take(i as int));
                assert(bytes@.take(i + 1).last() == bytes@[i as int]);
            }
            let ghost before = self@;
            let ghost effects_before = effects@;
            let b: u8 = bytes[i];
            if self.read_command {
                self.command = match b as char {
                    'b' => Command::Blink,
                    'x' => Command::Process,
                    _ => Command::Unknown,
                };
                self.read_command = false;
                assert(effect_views(effects@) =~= effect_views(effects_before) + step(before, b).1);
            } else if b as char == '\n' || b as char == '\r' {
                let mut done = self.run_command();
                let ghost done_effects = done@;
                effects.append(&mut done);
                self.read_command = true;
                line_clear(&mut self.data);
                self.command = Command::Unknown;
                assert(effect_views(effects@) =~= effect_views(effects_before) + effect_views(
                    done_effects,
                ));
            } else {
                if b as char != ' ' || !line_str(&self.data).is_empty() {
                    let _ = line_push(&mut self.data, b as char);
                }
                assert(effect_views(effects@) =~= effect_views(effects_before) + step(before, b).1);
            }
            assert(self@ == step(before, b).0);
            assert(effect_views(effects@) =~= seq![EffectView::Write(bytes@)] + run(
                start,
                bytes@.take(i + 1),
            ).1);
            i += 1;
        }
        assert(bytes@.take(i as int) =~= bytes@);
        effects
    }

    /// Carries out the command line that was read.
    pub fn run_command(&self) -> (r: Vec<Effect>)
        ensures
            effect_views(r@) == command_effects(self@),
    {
        let mut effects: Vec<Effect> = Vec::new();
        match self.command {
            Command::Blink => {
                let (blinks, duration) = match split_once(line_str(&self.data), ' ') {
                    Some((blinks, duration)) => (parse_or_zero(blinks), parse_or_zero(duration)),
                    None => (0, 0),
                };
                effects.push(Effect::StoreTicks(blinks));
                effects.push(Effect::StoreDuration(duration));
                effects.push(write_text("Starting blinky ...\r\n"));
                effects.push(Effect::Schedule(duration));
            },
            Command::Process => {
                let mut out: Vec<u8> = Vec::new();
                push_text(&mut out, "Sending to async processor: ");
                push_text(&mut out, line_str(&self.data));
                push_text(&mut out, "\r\n");
                effects.push(Effect::Write(out));
                effects.push(Effect::Send(line_clone(&self.data)));
            },
            Command::Unknown => {
                effects.push(write_text("Unknown command!\r\n"));
            },
        }
        assert(effect_views(effects@) =~= command_effects(self@));
        effects
    }
}

/// How the bytes are cut into portions makes no difference.
pub proof fn law_portions_do_not_matter(state: ReceiverView, a: Seq<u8>, b: Seq<u8>)
    ensures
        run(state, a + b).0 == run(run(state, a).0, b).0,
        run(state, a + b).1 == run(state, a).1 + run(run(state, a).0, b).1,
    decreases b.len(),
{
    if b.len() == 0 {
        assert(a + b =~= a);
        assert(run(state, a).1 + Seq::<EffectView>::empty() =~= run(state, a).1);
    } else {
        law_portions_do_not_matter(state, a, b.drop_last());
        assert((a + b).drop_last() =~= a + b.drop_last());
        let (mid, more) = run(run(state, a).0, b.drop_last());
        let (_, last) = step(mid, b.last());
        assert(run(state, a).1 + more + last =~= run(state, a).1 + (more + last));
    }
}

/// Whatever arrives, the receiver's state stays valid.
pub proof fn law_state_stays_valid(state: ReceiverView, bytes: Seq<u8>)
    requires
        valid(state),
    ensures
        valid(run(state, bytes).0),
    decreases bytes.len(),
{
    if bytes.len() > 0 {
        law_state_stays_valid(state, bytes.drop_last());
        lemma_step_valid(run(state, bytes.drop_last()).0, bytes.last());
    }
}

proof fn lemma_step_valid(state: ReceiverView, b: u8)
    requires
        valid(state),
    ensures
        valid(step(state, b).0),
{
    let next = step(state, b).0;
    if !state.read_command && !ends_line(b) {
        assert forall|i: int| 0 <= i < next.text.len() implies #[trigger] next.text[i] != '\n'
            && next.text[i] != '\r' by {
            if i < state.text.len() {
                assert(next.text[i] == state.text[i]);
            }
        }
    }
}

/// The receiver starts in a valid state.
pub proof fn law_start_is_valid()
    ensures
        valid(waiting()),
{
}

/// The characters that the bytes of a line become, one for each byte.
pub open spec fn chars_of(bytes: Seq<u8>) -> Seq<char> {
    bytes.map_values(|b: u8| b as char)
}

proof fn lemma_push_encoding(text: Seq<char>, c: char)
    ensures
        encode_utf8(text).len() <= encode_utf8(text.push(c)).len(),
    decreases text.len(),
{
    if text.len() > 0 {
        lemma_push_encoding(text.drop_first(), c);
        assert(text.push(c).drop_first() =~= text.drop_first().push(c));
    }
}

proof fn lemma_text_read(command: Command, bytes: Seq<u8>)
    requires
        forall|i: int| 0 <= i < bytes.len() ==> !ends_line(#[trigger] bytes[i]),
        bytes.len() > 0 ==> bytes[0] as char != ' ',
        fits(chars_of(bytes)),
    ensures
        ({
            let start = ReceiverView { text: Seq::empty(), command, read_command: false };
            run(start, bytes) == (
                ReceiverView { text: chars_of(bytes), command, read_command: false },
                Seq::<EffectView>::empty(),
            )
        }),
    decreases bytes.len(),
{
    let start = ReceiverView { text: Seq::empty(), command, read_command: false };
    if bytes.len() == 0 {
        assert(chars_of(bytes) =~= Seq::<char>::empty());
    } else {
        let front = bytes.drop_last();
        assert(chars_of(bytes) =~= chars_of(front).push(bytes.last() as char));
        lemma_push_encoding(chars_of(front), bytes.last() as char);
        assert forall|i: int| 0 <= i < front.len() implies !ends_line(#[trigger] front[i]) by {
            assert(front[i] == bytes[i]);
        }
        lemma_text_read(command, front);
        assert(!ends_line(bytes[bytes.len() - 1]));
        assert(Seq::<EffectView>::empty() + Seq::<EffectView>::empty() =~= Seq::<
            EffectView,
        >::empty());
    }
}

proof fn lemma_spaces_skipped(command: Command, spaces: Seq<u8>)
    requires
        forall|i: int| 0 <= i < spaces.len() ==> #[trigger] spaces[i] as char == ' ',
    ensures
        ({
            let start = ReceiverView { text: Seq::empty(), command, read_command: false };
            run(start, spaces) == (start, Seq::<EffectView>::empty())
        }),
    decreases spaces.len(),
{
    if spaces.len() > 0 {
        let front = spaces.drop_last();
        assert forall|i: int| 0 <= i < front.len() implies #[trigger] front[i] as char == ' ' by {
            assert(front[i] == spaces[i]);
        }
        lemma_spaces_skipped(command, front);
        assert(spaces[spaces.len() - 1] as char == ' ');
        assert(Seq::<EffectView>::empty() + Seq::<EffectView>::empty() =~= Seq::<
            EffectView,
        >::empty());
    }
}

/// A whole line, read between two lines, is carried out as the command of its
/// first byte with the rest as its text, and nothing is left of it. Spaces
/// between the command and its text are skipped; the text must fit.
pub proof fn law_line_is_carried_out(command: u8, spaces: Seq<u8>, text: Seq<u8>, end: u8)
    requires
        forall|i: int| 0 <= i < spaces.len() ==> #[trigger] spaces[i] as char == ' ',
        forall|i: int| 0 <= i < text.len() ==> !ends_line(#[trigger] text[i]),
        text.len() > 0 ==> text[0] as char != ' ',
        fits(chars_of(text)),
        ends_line(end),
    ensures
        run(waiting(), seq![command] + spaces + text + seq![end]) == (
            waiting(),
            command_effects(
                ReceiverView {
                    text: chars_of(text),
                    command: command_of(command),
                    read_command: false,
                },
            ),
        ),
{
    let none = Seq::<EffectView>::empty();
    let start = ReceiverView {
        text: Seq::empty(),
        command: command_of(command),
        read_command: false,
    };
    assert(none + none =~= none);
    assert(seq![command].drop_last() =~= Seq::<u8>::empty());
    assert(run(waiting(), Seq::<u8>::empty()) == (waiting(), none));
    assert(run(waiting(), seq![command]).0 == start);
    assert(run(waiting(), seq![command]).1 =~= none);
    lemma_spaces_skipped(command_of(command), spaces);
    law_portions_do_not_matter(waiting(), seq![command], spaces);
    lemma_text_read(command_of(command), text);
    law_portions_do_not_matter(waiting(), seq![command] + spaces, text);
    let line = seq![command] + spaces + text;
    assert((line + seq![end]).drop_last() =~= line);
    let state = run(waiting(), line).0;
    assert(none + command_effects(state) =~= command_effects(state));
}

/// The blink command reads the two numbers that were written.
pub proof fn law_blink_arguments_read_back(blinks: u32, duration: u32)
    ensures
        blink_arguments(decimal(blinks as nat) + seq![' '] + decimal(duration as nat)) == (
            blinks,
            duration,
        ),
{
    let (a, b) = (decimal(blinks as nat), decimal(duration as nat));
    let text = a + seq![' '] + b;
    law_decimal_reads_back(blinks as nat);
    law_decimal_reads_back(duration as nat);
    law_decimal_is_digits(blinks as nat);
    text.index_of_first_ensures(' ');
    assert(text[a.len() as int] == ' ');
    let i = text.index_of_first(' ')->Some_0;
    assert(i == a.len()) by {
        if i < a.len() {
            assert(text[i] == a[i]);
            assert('0' <= a[i] <= '9');
        }
    }
    assert(text.take(i) =~= a);
    assert(text.skip(i + 1) =~= b);
}

proof fn lemma_decimal_short(n: nat)
    requires
        n <= u32::MAX,
    ensures
        decimal(n).len() <= 10,
{
    reveal_with_fuel(decimal, 10);
}

/// The line `b <count> <duration>` starts a pattern of `count` blinks that are
/// `duration` milliseconds apart.
pub proof fn law_blink_line(
    blinks: u32,
    duration: u32,
    spaces: Seq<u8>,
    text: Seq<u8>,
    end: u8,
)
    requires
        forall|i: int| 0 <= i < spaces.len() ==> #[trigger] spaces[i] as char == ' ',
        chars_of(text) == decimal(blinks as nat) + seq![' '] + decimal(duration as nat),
        ends_line(end),
    ensures
        run(waiting(), seq![0x62u8] + spaces + text + seq![end]) == (
            waiting(),
            seq![
                EffectView::StoreTicks(blinks),
                EffectView::StoreDuration(duration),
                EffectView::Write(encode_utf8("Starting blinky ...\r\n"@)),
                EffectView::Schedule(duration),
            ],
        ),
{
    let (a, b) = (decimal(blinks as nat), decimal(duration as nat));
    let chars = chars_of(text);
    law_decimal_is_digits(blinks as nat);
    law_decimal_is_digits(duration as nat);
    lemma_decimal_short(blinks as nat);
    lemma_decimal_short(duration as nat);
    assert forall|i: int| 0 <= i < chars.len() implies #[trigger] chars[i] == ' ' || '0' <= chars[i]
        <= '9' by {
        if i < a.len() {
            assert(chars[i] == a[i]);
        } else if i > a.len() {
            assert(chars[i] == b[i - a.len() - 1]);
        }
    }
    assert forall|i: int| 0 <= i < text.len() implies !ends_line(#[trigger] text[i]) by {
        assert(chars[i] == text[i] as char);
    }
    assert(chars.len() == text.len());
    assert((a + seq![' '] + b).len() == a.len() + 1 + b.len());
    assert(chars[0] == a[0]);
    assert(text[0] as char == chars[0]);
    assert(is_ascii_chars(chars));
    is_ascii_chars_encode_utf8(chars);
    law_line_is_carried_out(0x62, spaces, text, end);
    law_blink_arguments_read_back(blinks, duration);
}

/// The line `x <data>` sends `data` to the processor, and reports it.
pub proof fn law_process_line(spaces: Seq<u8>, text: Seq<u8>, end: u8)
    requires
        forall|i: int| 0 <= i < spaces.len() ==> #[trigger] spaces[i] as char == ' ',
        forall|i: int| 0 <= i < text.len() ==> !ends_line(#[trigger] text[i]),
        text.len() > 0 ==> text[0] as char != ' ',
        fits(chars_of(text)),
        ends_line(end),
    ensures
        run(waiting(), seq![0x78u8] + spaces + text + seq![end]) == (
            waiting(),
            seq![
                EffectView::Write(
                    encode_utf8("Sending to async processor: "@) + encode_utf8(chars_of(text))
                        + encode_utf8("\r\n"@),
                ),
                EffectView::Send(chars_of(text)),
            ],
        ),
{
    law_line_is_carried_out(0x78, spaces, text, end);
}

} // verus!
