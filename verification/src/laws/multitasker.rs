//! What the tasks do with bytes, lines and alarms.

use vstd::prelude::*;
use vstd::utf8::{encode_utf8, is_ascii_chars, is_ascii_chars_encode_utf8};
use crate::multitasker::cipher::{
    hashed, lane_of, law_hash_lanes, law_hash_of_joined, xor_cipher, xor_hash, ENC_KEY,
};
use crate::multitasker::effect::{effect_views, Effect, EffectView};
use crate::multitasker::line::line_text;
use crate::multitasker::processor::{AsyncProcessor, Next, Received};
use crate::multitasker::receiver::{
    chars_of, law_line_is_carried_out, law_portions_do_not_matter, run, step, Command,
    CommandReceiverTask, ReceiverView,
};
use crate::multitasker::toggler::{alarm_micros, TimedLedToggler};
use crate::text::{decimal, decimal_value, law_decimal_reads_back};

verus! {

/// Byte `i` of the repeated key.
pub open spec fn key_byte(i: int) -> u8 {
    "fd@aG692-d70s"@[i % 13] as u8
}

proof fn lemma_key(i: int)
    requires
        0 <= i,
    ensures
        ENC_KEY@[i % 13] == key_byte(i),
{
    reveal_strlit("fd@aG692-d70s");
    let k = i % 13;
    assert(0 <= k < 13);
    assert(ENC_KEY@[k] == "fd@aG692-d70s"@[k] as u8);
}

/// Encryption keeps the length, changes every byte by the key byte in its place,
/// and a second encryption gives the bytes back.
pub proof fn law_encryption(data: &mut [u8], again: &mut [u8])
    requires
        call_ensures(xor_cipher, (data,), ()),
        call_ensures(xor_cipher, (again,), ()),
        old(again)@ == final(data)@,
    ensures
        final(data)@.len() == old(data)@.len(),
        forall|i: int|
            0 <= i < old(data)@.len() ==> #[trigger] final(data)@[i] == old(data)@[i] ^ key_byte(i),
        final(again)@ == old(data)@,
{
    assert forall|i: int| 0 <= i < old(data)@.len() implies #[trigger] final(data)@[i] == old(
        data,
    )@[i] ^ key_byte(i) by {
        lemma_key(i);
    }
    crate::multitasker::cipher::law_cipher_undoes_itself(old(data)@);
}

/// The hash of up to four bytes is the number that they make, the first in the
/// lowest place.
pub proof fn law_hash_of_few(data: &[u8], r: u32, lane: u32)
    requires
        call_ensures(xor_hash, (data,), r),
        data@.len() <= 4,
        lane < 4,
    ensures
        (r >> (lane * 8) as u32) & 0xff == if lane < data@.len() {
            data@[lane as int] as u32
        } else {
            0
        },
{
    law_hash_lanes(data@, lane);
    lemma_lane_of_few(data@, lane as int);
}

proof fn lemma_lane_of_few(data: Seq<u8>, lane: int)
    requires
        data.len() <= 4,
        0 <= lane < 4,
    ensures
        lane_of(data, lane) == if lane < data.len() {
            data[lane]
        } else {
            0
        },
    decreases data.len(),
{
    if data.len() > 0 {
        lemma_lane_of_few(data.drop_last(), lane);
        let b = data.last();
        assert(0u8 ^ b == b) by (bit_vector);
    }
}

/// The hash of joined texts combines their hashes, where the first consists of
/// whole groups of four.
pub proof fn law_hash_joins(a: &[u8], b: &[u8], both: &[u8], ra: u32, rb: u32, r: u32)
    requires
        call_ensures(xor_hash, (a,), ra),
        call_ensures(xor_hash, (b,), rb),
        call_ensures(xor_hash, (both,), r),
        both@ == a@ + b@,
        a@.len() % 4 == 0,
    ensures
        r == ra ^ rb,
{
    law_hash_of_joined(a@, b@);
}

/// The receiver between two lines.
pub open spec fn between_lines() -> ReceiverView {
    ReceiverView { text: Seq::empty(), command: Command::Unknown, read_command: true }
}

/// A fresh receiver waits for a line.
pub proof fn law_fresh_receiver(r: CommandReceiverTask)
    requires
        call_ensures(CommandReceiverTask::init, (), r),
    ensures
        r@ == between_lines(),
{
}

/// The number that an argument spells if it fits, zero otherwise.
pub open spec fn number(text: Seq<char>) -> u32 {
    if decimal_value(text) is Some && decimal_value(text)->Some_0 <= u32::MAX {
        decimal_value(text)->Some_0 as u32
    } else {
        0
    }
}

/// What a blink command asks for.
pub open spec fn blinking(blinks: u32, duration: u32) -> Seq<EffectView> {
    seq![
        EffectView::StoreTicks(blinks),
        EffectView::StoreDuration(duration),
        EffectView::Write(encode_utf8("Starting blinky ...\r\n"@)),
        EffectView::Schedule(duration),
    ]
}

/// What a process command asks for.
pub open spec fn sending(text: Seq<char>) -> Seq<EffectView> {
    seq![
        EffectView::Write(
            encode_utf8("Sending to async processor: "@) + encode_utf8(text) + encode_utf8(
                "\r\n"@,
            ),
        ),
        EffectView::Send(text),
    ]
}

/// What every other command asks for.
pub open spec fn complaint() -> Seq<EffectView> {
    seq![EffectView::Write(encode_utf8("Unknown command!\r\n"@))]
}

/// A blink command takes its two numbers from before and after the first space,
/// zeros where there is none; a process command sends its whole text; any other
/// only complains.
pub proof fn law_run_command(
    task: &CommandReceiverTask,
    r: Vec<Effect>,
    before: Seq<char>,
    after: Seq<char>,
)
    requires
        call_ensures(CommandReceiverTask::run_command, (task,), r),
    ensures
        task.command == Command::Blink && !line_text(task.data).contains(' ') ==> effect_views(r@)
            == blinking(0, 0),
        task.command == Command::Blink && line_text(task.data) == before + seq![' '] + after
            && !before.contains(' ') ==> effect_views(r@) == blinking(
            number(before),
            number(after),
        ),
        task.command == Command::Process ==> effect_views(r@) == sending(line_text(task.data)),
        task.command == Command::Unknown ==> effect_views(r@) == complaint(),
{
    let text = line_text(task.data);
    text.index_of_first_ensures(' ');
    if task.command == Command::Blink {
        if text == before + seq![' '] + after && !before.contains(' ') {
            assert(text[before.len() as int] == ' ');
            let i = text.index_of_first(' ')->Some_0;
            assert(i == before.len()) by {
                if i < before.len() {
                    assert(text[i] == before[i]);
                }
            }
            assert(text.take(i) =~= before);
            assert(text.skip(i + 1) =~= after);
        }
    }
}

proof fn lemma_no_line_end(state: ReceiverView, bytes: Seq<u8>)
    requires
        forall|i: int|
            0 <= i < bytes.len() ==> #[trigger] bytes[i] as char != '\n' && bytes[i] as char
                != '\r',
    ensures
        run(state, bytes).1 == Seq::<EffectView>::empty(),
    decreases bytes.len(),
{
    if bytes.len() > 0 {
        let front = bytes.drop_last();
        assert forall|i: int| 0 <= i < front.len() implies #[trigger] front[i] as char != '\n'
            && front[i] as char != '\r' by {
            assert(front[i] == bytes[i]);
        }
        lemma_no_line_end(state, front);
        assert(bytes[bytes.len() - 1] as char != '\n');
        assert(Seq::<EffectView>::empty() + Seq::<EffectView>::empty() =~= Seq::<
            EffectView,
        >::empty());
    }
}

/// Whatever arrives is echoed first, as it is. Without a line end nothing else
/// happens.
pub proof fn law_echo(task: &mut CommandReceiverTask, bytes: &[u8], r: Vec<Effect>)
    requires
        call_ensures(CommandReceiverTask::exec, (task, bytes), r),
    ensures
        r@.len() > 0,
        effect_views(r@)[0] == EffectView::Write(bytes@),
        (forall|i: int|
            0 <= i < bytes@.len() ==> #[trigger] bytes@[i] as char != '\n' && bytes@[i] as char
                != '\r') ==> effect_views(r@) == seq![EffectView::Write(bytes@)],
{
    assert(effect_views(r@)[0] == EffectView::Write(bytes@));
    assert(effect_views(r@).len() == r@.len());
    if forall|i: int|
        0 <= i < bytes@.len() ==> #[trigger] bytes@[i] as char != '\n' && bytes@[i] as char
            != '\r' {
        lemma_no_line_end(old(task)@, bytes@);
        assert(effect_views(r@) =~= seq![EffectView::Write(bytes@)]);
    }
}

proof fn lemma_one_byte(state: ReceiverView, b: u8)
    ensures
        run(state, seq![b]).0 == step(state, b).0,
        run(state, seq![b]).1 == step(state, b).1,
{
    assert(seq![b].drop_last() =~= Seq::<u8>::empty());
    assert(run(state, Seq::<u8>::empty()) == (state, Seq::<EffectView>::empty()));
    assert(Seq::<EffectView>::empty() + step(state, b).1 =~= step(state, b).1);
}

/// What a single byte does: the first byte of a line picks the command; a line end
/// carries the line out and forgets it; any other byte joins the text, unless it
/// is a space at its start or does not fit in thirty bytes.
pub proof fn law_single_byte(
    task: &mut CommandReceiverTask,
    bytes: &[u8],
    r: Vec<Effect>,
    carried_out: Vec<Effect>,
)
    requires
        call_ensures(CommandReceiverTask::exec, (task, bytes), r),
        call_ensures(CommandReceiverTask::run_command, (old(task),), carried_out),
        bytes@.len() == 1,
    ensures
        ({
            let c = bytes@[0] as char;
            let (before, after) = (old(task)@, final(task)@);
            if before.read_command {
                &&& !after.read_command
                &&& after.text == before.text
                &&& after.command == Command::Blink <==> c == 'b'
                &&& after.command == Command::Process <==> c == 'x'
            } else if c == '\n' || c == '\r' {
                &&& after == between_lines()
                &&& effect_views(r@) == seq![EffectView::Write(bytes@)] + effect_views(
                    carried_out@,
                )
            } else {
                &&& !after.read_command
                &&& after.command == before.command
                &&& after.text == if (c == ' ' && before.text.len() == 0) || encode_utf8(
                    before.text.push(c),
                ).len() > 30 {
                    before.text
                } else {
                    before.text.push(c)
                }
            }
        }),
{
    let b = bytes@[0];
    assert(bytes@ =~= seq![b]);
    lemma_one_byte(old(task)@, b);
}

/// Two portions do what one does that holds the bytes of both: the same state is
/// reached, and behind the echo the same is done.
pub proof fn law_portions(
    first: &mut CommandReceiverTask,
    second: &mut CommandReceiverTask,
    whole: &mut CommandReceiverTask,
    a: &[u8],
    b: &[u8],
    both: &[u8],
    ra: Vec<Effect>,
    rb: Vec<Effect>,
    r: Vec<Effect>,
)
    requires
        call_ensures(CommandReceiverTask::exec, (first, a), ra),
        call_ensures(CommandReceiverTask::exec, (second, b), rb),
        call_ensures(CommandReceiverTask::exec, (whole, both), r),
        old(whole)@ == old(first)@,
        old(second)@ == final(first)@,
        both@ == a@ + b@,
    ensures
        final(whole)@ == final(second)@,
        effect_views(r@).drop_first() == effect_views(ra@).drop_first() + effect_views(
            rb@,
        ).drop_first(),
{
    law_portions_do_not_matter(old(first)@, a@, b@);
    let start = old(first)@;
    assert(effect_views(ra@).drop_first() =~= run(start, a@).1);
    assert(effect_views(rb@).drop_first() =~= run(old(second)@, b@).1);
    assert(effect_views(r@).drop_first() =~= run(start, both@).1);
}

/// A whole line that arrives between two lines: `b` blinks as its two numbers
/// say, `x` sends the text, any other first byte gives a complaint, and nothing is
/// left of the line. Spaces between the first byte and the text are skipped.
pub proof fn law_whole_line(
    task: &mut CommandReceiverTask,
    bytes: &[u8],
    r: Vec<Effect>,
    command: u8,
    spaces: Seq<u8>,
    text: Seq<u8>,
    end: u8,
    before: Seq<char>,
    after: Seq<char>,
)
    requires
        call_ensures(CommandReceiverTask::exec, (task, bytes), r),
        old(task)@ == between_lines(),
        bytes@ == seq![command] + spaces + text + seq![end],
        forall|i: int| 0 <= i < spaces.len() ==> #[trigger] spaces[i] as char == ' ',
        forall|i: int|
            0 <= i < text.len() ==> #[trigger] text[i] as char != '\n' && text[i] as char != '\r',
        text.len() > 0 ==> text[0] as char != ' ',
        end as char == '\n' || end as char == '\r',
        encode_utf8(chars_of(text)).len() <= 30,
    ensures
        final(task)@ == between_lines(),
        command as char == 'b' && !chars_of(text).contains(' ') ==> effect_views(r@) == seq![
            EffectView::Write(bytes@),
        ] + blinking(0, 0),
        command as char == 'b' && chars_of(text) == before + seq![' '] + after && !before.contains(
            ' ',
        ) ==> effect_views(r@) == seq![EffectView::Write(bytes@)] + blinking(
            number(before),
            number(after),
        ),
        command as char == 'x' ==> effect_views(r@) == seq![EffectView::Write(bytes@)] + sending(
            chars_of(text),
        ),
        command as char != 'b' && command as char != 'x' ==> effect_views(r@) == seq![
            EffectView::Write(bytes@),
        ] + complaint(),
{
    law_line_is_carried_out(command, spaces, text, end);
    let chars = chars_of(text);
    chars.index_of_first_ensures(' ');
    if command as char == 'b' && chars == before + seq![' '] + after && !before.contains(' ') {
        assert(chars[before.len() as int] == ' ');
        let i = chars.index_of_first(' ')->Some_0;
        assert(i == before.len()) by {
            if i < before.len() {
                assert(chars[i] == before[i]);
            }
        }
        assert(chars.take(i) =~= before);
        assert(chars.skip(i + 1) =~= after);
    }
}

/// A number that was written is the number that a command reads.
pub proof fn law_written_numbers_are_read(n: u32)
    ensures
        number(decimal(n as nat)) == n,
        !decimal(n as nat).contains(' '),
{
    law_decimal_reads_back(n as nat);
    crate::text::law_decimal_is_digits(n as nat);
    assert forall|i: int| 0 <= i < decimal(n as nat).len() implies decimal(n as nat)[i] != ' ' by {
        assert('0' <= decimal(n as nat)[i] <= '9');
    }
}

/// Of a text that does not fit, the first thirty characters are kept, where every
/// byte is ASCII.
pub proof fn law_long_text(state: ReceiverView, text: Seq<u8>)
    requires
        !state.read_command,
        state.text == Seq::<char>::empty(),
        text.len() > 0 ==> text[0] as char != ' ',
        forall|i: int|
            0 <= i < text.len() ==> #[trigger] text[i] as char != '\n' && text[i] as char != '\r'
                && text[i] < 0x80,
    ensures
        run(state, text).0 == (ReceiverView {
            text: if text.len() <= 30 {
                chars_of(text)
            } else {
                chars_of(text).take(30)
            },
            ..state
        }),
    decreases text.len(),
{
    if text.len() == 0 {
        assert(chars_of(text) =~= Seq::empty());
    } else {
        let front = text.drop_last();
        assert forall|i: int| 0 <= i < front.len() implies #[trigger] front[i] as char != '\n'
            && front[i] as char != '\r' && front[i] < 0x80 by {
            assert(front[i] == text[i]);
        }
        law_long_text(state, front);
        let b = text.last();
        assert(text[text.len() - 1] == b);
        let kept = run(state, front).0.text;
        assert(chars_of(text) =~= chars_of(front).push(b as char));
        let grown = kept.push(b as char);
        assert forall|i: int| 0 <= i < grown.len() implies 0 <= #[trigger] grown[i] < 128 by {
            if i < kept.len() {
                assert(kept[i] == front[i] as char);
            }
        }
        assert(is_ascii_chars(grown));
        is_ascii_chars_encode_utf8(grown);
        if text.len() <= 30 {
            assert(grown =~= chars_of(text));
        } else {
            assert(kept =~= chars_of(text).take(30));
        }
    }
}

/// An alarm stores one blink less, toggles the light once and is acknowledged
/// last. The next alarm is scheduled, after the given time, while blinks are left;
/// otherwise the end is reported.
pub proof fn law_alarm(task: &TimedLedToggler, duration: u32, ticks: u32, r: Vec<Effect>)
    requires
        call_ensures(TimedLedToggler::exec, (task, duration, ticks), r),
    ensures
        ({
            let effects = effect_views(r@);
            &&& effects.len() == 4
            &&& effects[0] == EffectView::StoreTicks(
                if ticks > 0 {
                    (ticks - 1) as u32
                } else {
                    0
                },
            )
            &&& effects[1] == EffectView::ToggleLed
            &&& effects[2] == if ticks > 1 {
                EffectView::Schedule(duration)
            } else {
                EffectView::Write(encode_utf8("finished pattern!\r\n"@))
            }
            &&& effects[3] == EffectView::ClearAlarm
        }),
{
}

/// Delays add up, and a millisecond has a thousand microseconds.
pub proof fn law_delays_add_up(a: u32, b: u32, both: u32, ra: u32, rb: u32, r: u32, one: u32)
    requires
        both == a + b,
        both * 1000 <= u32::MAX,
        call_ensures(alarm_micros, (a,), ra),
        call_ensures(alarm_micros, (b,), rb),
        call_ensures(alarm_micros, (both,), r),
        call_ensures(alarm_micros, (1u32,), one),
    ensures
        r == ra + rb,
        one == 1000,
        ra == a * one,
{
}

/// A line is reported as it came; then its encryption, which has the same length
/// and differs by the key byte in every place; then the hash of the encryption, as
/// a number. The task waits again.
pub proof fn law_line_is_processed(
    task: &AsyncProcessor,
    received: &Received,
    r: (Vec<Effect>, Next),
    line: heapless::String<30>,
    encrypted: &[u8],
    hash: u32,
)
    requires
        call_ensures(AsyncProcessor::exec, (task, received), r),
        *received == Received::Line(line),
        encrypted@.len() == encode_utf8(line_text(line)).len(),
        forall|i: int|
            0 <= i < encrypted@.len() ==> #[trigger] encrypted@[i] == encode_utf8(
                line_text(line),
            )[i] ^ key_byte(i),
        call_ensures(xor_hash, (encrypted,), hash),
    ensures
        r.1 == Next::Wait,
        effect_views(r.0@) == seq![
            EffectView::Write(
                encode_utf8("Async: received \""@) + encode_utf8(line_text(line)) + encode_utf8(
                    "\", encrypting...\r\n"@,
                ),
            ),
            EffectView::Write(
                encode_utf8("Async: encrypted -> \""@) + encrypted@ + encode_utf8("\"\r\n"@),
            ),
            EffectView::Write(encode_utf8("Async: computing hash...\r\n"@)),
            EffectView::Write(
                encode_utf8("Async: hash = "@) + encode_utf8(decimal(hash as nat)) + encode_utf8(
                    "\r\n"@,
                ),
            ),
        ],
{
    let data = encode_utf8(line_text(line));
    assert forall|i: int| 0 <= i < data.len() implies crate::multitasker::cipher::ciphered(data)[i]
        == encrypted@[i] by {
        lemma_key(i);
    }
    assert(crate::multitasker::cipher::ciphered(data) =~= encrypted@);
    assert(hash == hashed(encrypted@));
}

/// The task announces itself, and ends, with one report, when its sender is gone.
pub proof fn law_processor_ends(
    task: &AsyncProcessor,
    start: Effect,
    received: &Received,
    r: (Vec<Effect>, Next),
)
    requires
        call_ensures(AsyncProcessor::start, (task,), start),
        call_ensures(AsyncProcessor::exec, (task, received), r),
    ensures
        start@ == EffectView::Write(
            encode_utf8("Async: processor started, waiting for data...\r\n"@),
        ),
        r.1 == Next::Exit <==> *received == Received::Closed,
        *received == Received::Closed ==> effect_views(r.0@) == seq![
            EffectView::Write(encode_utf8("Async: channel closed, exiting.\r\n"@)),
        ],
{
}

} // verus!
