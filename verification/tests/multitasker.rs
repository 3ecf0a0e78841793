use rticx_rp2040::multitasker::cipher::{xor_cipher, xor_hash, ENC_KEY};
use rticx_rp2040::multitasker::effect::Effect;
use rticx_rp2040::multitasker::processor::{AsyncProcessor, Next, Received};
use rticx_rp2040::multitasker::receiver::{Command, CommandReceiverTask};
use rticx_rp2040::multitasker::toggler::{alarm_micros, TimedLedToggler};
use rticx_rp2040::multitasker::welcome;

fn show(effects: &[Effect]) -> Vec<String> {
    effects
        .iter()
        .map(|e| match e {
            Effect::Write(bytes) => format!("write {}", String::from_utf8_lossy(bytes)),
            Effect::StoreTicks(n) => format!("ticks {n}"),
            Effect::StoreDuration(ms) => format!("duration {ms}"),
            Effect::Schedule(ms) => format!("schedule {ms}"),
            Effect::ClearAlarm => "clear".to_string(),
            Effect::ToggleLed => "toggle".to_string(),
            Effect::Send(line) => format!("send {}", line.as_str()),
        })
        .collect()
}

fn blink(ticks: u32, duration: u32) -> Vec<String> {
    vec![
        format!("ticks {ticks}"),
        format!("duration {duration}"),
        "write Starting blinky ...\r\n".to_string(),
        format!("schedule {duration}"),
    ]
}

/// What the receiver does on a line, apart from the echo.
fn on_line(line: &str) -> Vec<String> {
    let mut receiver = CommandReceiverTask::init();
    let effects = receiver.exec(line.as_bytes());
    let all = show(&effects);
    assert_eq!(all[0], format!("write {line}"));
    all[1..].to_vec()
}

#[test]
fn welcome_text() {
    assert_eq!(
        show(&welcome()),
        vec![
            "write Welcome to Async Multitasker\r\n",
            "write Commands: b <count> <duration> | x <data>\r\n",
            "write   b = blink LED   x = process via async task\r\n",
        ]
    );
}

#[test]
fn blink_commands() {
    assert_eq!(on_line("b 5 200\n"), blink(5, 200));
    assert_eq!(on_line("b5 200\r"), blink(5, 200));
    assert_eq!(on_line("b    5 200\n"), blink(5, 200));
    assert_eq!(on_line("b +5 +200\n"), blink(5, 200));
    assert_eq!(on_line("b 4294967295 4294967295\n"), blink(u32::MAX, u32::MAX));
}

#[test]
fn blink_arguments_that_spell_no_number_are_zero() {
    assert_eq!(on_line("b\n"), blink(0, 0));
    assert_eq!(on_line("b 5\n"), blink(0, 0));
    assert_eq!(on_line("b 5 \n"), blink(5, 0));
    assert_eq!(on_line("b 5  200\n"), blink(5, 0));
    assert_eq!(on_line("b -5 200\n"), blink(0, 200));
    assert_eq!(on_line("b five 200\n"), blink(0, 200));
    assert_eq!(on_line("b + 200\n"), blink(0, 200));
    assert_eq!(on_line("b 4294967296 1_0\n"), blink(0, 0));
}

#[test]
fn process_commands() {
    assert_eq!(
        on_line("x hello world \n"),
        vec!["write Sending to async processor: hello world \r\n", "send hello world "]
    );
    assert_eq!(on_line("x\n"), vec!["write Sending to async processor: \r\n", "send "]);
}

#[test]
fn unknown_commands() {
    assert_eq!(on_line("q\n"), vec!["write Unknown command!\r\n"]);
    // the first byte of a line is its command, whatever it is
    assert_eq!(on_line("\nb 1 2\n"), vec!["write Unknown command!\r\n"]);
    assert_eq!(on_line("B 1 2\n"), vec!["write Unknown command!\r\n"]);
}

#[test]
fn several_lines_in_one_portion() {
    let mut expected = blink(1, 2);
    expected.push("write Sending to async processor: y\r\n".to_string());
    expected.push("send y".to_string());
    assert_eq!(on_line("b 1 2\nxy\n"), expected);
}

#[test]
fn portions_make_no_difference() {
    let mut receiver = CommandReceiverTask::init();
    let mut seen = vec![];
    for b in "b 12 34\rx".as_bytes() {
        seen.extend(show(&receiver.exec(&[*b])).split_off(1));
    }
    assert_eq!(seen, blink(12, 34));
    assert_eq!(receiver.command, Command::Process);
    assert!(!receiver.read_command);
    assert_eq!(receiver.data.as_str(), "");
}

#[test]
fn a_line_leaves_nothing_behind() {
    let mut receiver = CommandReceiverTask::init();
    receiver.exec(b"x left over\n");
    assert_eq!(receiver.command, Command::Unknown);
    assert!(receiver.read_command);
    assert_eq!(receiver.data.as_str(), "");
}

#[test]
fn a_full_line_drops_the_rest() {
    let long = "x123456789012345678901234567890tail\n";
    assert_eq!(on_line(long)[1], "send 123456789012345678901234567890");
    // a byte from 0x80 on takes two bytes of the line
    let mut receiver = CommandReceiverTask::init();
    receiver.exec(b"x12345678901234567890123456789");
    receiver.exec(&[0xe9, b'z']);
    assert_eq!(receiver.data.as_str(), "12345678901234567890123456789z");
    let mut receiver = CommandReceiverTask::init();
    receiver.exec(&[b'x', 0xe9]);
    assert_eq!(receiver.data.as_str(), "\u{e9}");
}

#[test]
fn run_command_of_a_fresh_receiver() {
    let receiver = CommandReceiverTask::init();
    assert_eq!(show(&receiver.run_command()), vec!["write Unknown command!\r\n"]);
}

#[test]
fn alarms() {
    let toggler = TimedLedToggler::init();
    assert_eq!(show(&toggler.exec(200, 3)), vec!["ticks 2", "toggle", "schedule 200", "clear"]);
    for ticks in [0, 1] {
        assert_eq!(
            show(&toggler.exec(200, ticks)),
            vec!["ticks 0", "toggle", "write finished pattern!\r\n", "clear"]
        );
    }
}

#[test]
fn a_pattern_toggles_as_often_as_asked() {
    let toggler = TimedLedToggler::init();
    let mut ticks = 5;
    let mut toggles = 0;
    let mut scheduled = true;
    while scheduled {
        scheduled = false;
        for e in toggler.exec(10, ticks) {
            match e {
                Effect::StoreTicks(n) => ticks = n,
                Effect::ToggleLed => toggles += 1,
                Effect::Schedule(_) => scheduled = true,
                _ => {}
            }
        }
    }
    assert_eq!((toggles, ticks), (5, 0));
}

#[test]
fn alarm_delay_in_microseconds() {
    assert_eq!(alarm_micros(0), 0);
    assert_eq!(alarm_micros(200), 200_000);
    assert_eq!(alarm_micros(4_294_967), 4_294_967_000);
}

#[test]
fn cipher_and_back() {
    let mut data = b"hello, thirteen and more".to_vec();
    let plain = data.clone();
    xor_cipher(&mut data);
    for i in 0..data.len() {
        assert_eq!(data[i], plain[i] ^ ENC_KEY[i % ENC_KEY.len()]);
        assert!(data[i] < 0x80);
    }
    assert_ne!(data, plain);
    xor_cipher(&mut data);
    assert_eq!(data, plain);
    assert_eq!(&ENC_KEY, b"fd@aG692-d70s");
}

#[test]
fn hash_values() {
    assert_eq!(xor_hash(b""), 0);
    assert_eq!(xor_hash(&[1, 2, 3, 4]), 0x04030201);
    assert_eq!(xor_hash(&[1, 2, 3, 4, 0xff, 2]), 0x040300fe);
    assert_eq!(xor_hash(b"abcd"), u32::from_le_bytes(*b"abcd"));
}

#[test]
fn hash_of_joined_texts() {
    assert_eq!(xor_hash(b"12345678tail!"), xor_hash(b"12345678") ^ xor_hash(b"tail!"));
    assert_ne!(xor_hash(b"123tail!"), xor_hash(b"123") ^ xor_hash(b"tail!"));
}

#[test]
fn processor_handles_a_line() {
    let processor = AsyncProcessor::init();
    assert_eq!(
        show(&[processor.start()]),
        vec!["write Async: processor started, waiting for data...\r\n"]
    );
    let line: heapless::String<30> = heapless::String::try_from("abc").unwrap();
    let (effects, next) = processor.exec(&Received::Line(line));
    assert_eq!(next, Next::Wait);
    // 'a' ^ 'f', 'b' ^ 'd', 'c' ^ '@'
    assert_eq!(
        show(&effects),
        vec![
            "write Async: received \"abc\", encrypting...\r\n",
            "write Async: encrypted -> \"\u{7}\u{6}#\"\r\n",
            "write Async: computing hash...\r\n",
            "write Async: hash = 2295303\r\n",
        ]
    );
}

#[test]
fn processor_ends_with_the_channel() {
    let (effects, next) = AsyncProcessor::init().exec(&Received::Closed);
    assert_eq!(next, Next::Exit);
    assert_eq!(show(&effects), vec!["write Async: channel closed, exiting.\r\n"]);
}
