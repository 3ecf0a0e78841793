use rticx_rp2040::ping_pong::{Core0Task, Core1Task, MyIdleTask, FIRST_PING};
use rticx_rp2040::text::decimal_text;

#[test]
fn idle_counts() {
    let mut idle = MyIdleTask { count: 0 };
    idle.exec();
    idle.exec();
    assert_eq!(idle.count, 2);
}

#[test]
fn messages_count_up() {
    let mut message = FIRST_PING;
    for round in 0..10 {
        assert_eq!(message, 2 * round + 1);
        message = Core0Task.exec(0, message);
        assert_eq!(message, 2 * round + 2);
        message = Core1Task.exec(1, message);
    }
}

#[test]
fn decimal_texts() {
    assert_eq!(decimal_text(0), "0");
    assert_eq!(decimal_text(9), "9");
    assert_eq!(decimal_text(10), "10");
    assert_eq!(decimal_text(1024), "1024");
    assert_eq!(decimal_text(u64::MAX), "18446744073709551615");
}
