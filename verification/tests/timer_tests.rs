use chip8::machine::Machine;
use chip8::timer::{run_timer, Timer, TimerEvent, TIMER_PERIOD_SECS};

#[test]
fn timer_seeded_with_five_reads_four_after_one_period() {
    let mut t = Timer::new(5);
    assert_eq!(run_timer(&mut t, TimerEvent::PeriodElapsed), None);
    assert_eq!(run_timer(&mut t, TimerEvent::Requested), Some(4));
    assert_eq!(t.value(), 4);
}

#[test]
fn timer_read_twice_without_a_period_gives_the_same_value() {
    let mut t = Timer::new(5);
    run_timer(&mut t, TimerEvent::PeriodElapsed);
    let first = run_timer(&mut t, TimerEvent::Requested);
    let second = run_timer(&mut t, TimerEvent::Requested);
    assert_eq!(first, Some(4));
    assert_eq!(second, Some(4));
    assert_eq!(t.time, 4);
}

#[test]
fn timer_asked_before_the_first_period_gives_the_seed() {
    let mut t = Timer::new(5);
    assert_eq!(run_timer(&mut t, TimerEvent::Requested), Some(5));
    let mut z = Timer::new(0);
    assert_eq!(run_timer(&mut z, TimerEvent::Requested), Some(0));
}

#[test]
fn timer_stops_at_zero() {
    let mut t = Timer::new(2);
    t.tick();
    t.tick();
    assert_eq!(t.value(), 0);
    t.tick();
    assert_eq!(t.value(), 0);
    let mut z = Timer::new(0);
    assert_eq!(run_timer(&mut z, TimerEvent::PeriodElapsed), None);
    assert_eq!(run_timer(&mut z, TimerEvent::Requested), Some(0));
}

#[test]
fn timer_counts_down_once_per_period_whatever_is_asked() {
    let mut t = Timer::new(200);
    for k in 1..=3u8 {
        assert_eq!(run_timer(&mut t, TimerEvent::Requested), Some(201 - k));
        assert_eq!(run_timer(&mut t, TimerEvent::PeriodElapsed), None);
        assert_eq!(run_timer(&mut t, TimerEvent::Requested), Some(200 - k));
    }
    assert_eq!(TIMER_PERIOD_SECS, 1);
}

#[test]
fn init_timer_seeds_from_a_register_or_with_the_default() {
    let mut m = Machine::new(1);
    m.set_reg(4, 77);
    let from_reg = m.init_timer(Some(4));
    assert_eq!(from_reg.time, 77);
    assert_eq!(m.get_reg(4), 77);
    let by_default = m.init_timer(None);
    assert_eq!(by_default.time, 10);
}

#[test]
fn timer_can_be_asked_again_and_again_once_it_is_started() {
    let mut m = Machine::new(1);
    assert!(!m.request_time());
    m.init_timer(None);
    assert!(m.request_time());
    assert!(m.request_time());
    m.init_timer(Some(0));
    assert!(m.request_time());
}

#[test]
fn get_time_stores_the_reply_or_zero() {
    let mut m = Machine::new(1);
    m.set_reg(3, 9);
    m.get_time(3, None);
    assert_eq!(m.get_reg(3), 0);
    m.get_time(3, Some(42));
    assert_eq!(m.get_reg(3), 42);
    assert_eq!(m.get_reg(2), 0);
}

/// The machine's request with the timer at hand: asks only a timer that was
/// started, and stores the answer.
fn ask(m: &mut Machine, reg: u8, timer: &mut Timer) {
    let reply = if m.request_time() { run_timer(timer, TimerEvent::Requested) } else { None };
    m.get_time(reg, reply);
}

#[test]
fn machine_seeded_with_five_reads_four_after_one_period() {
    let mut m = Machine::new(1);
    m.set_reg(0, 5);
    let mut timer = m.init_timer(Some(0));
    run_timer(&mut timer, TimerEvent::PeriodElapsed);
    ask(&mut m, 1, &mut timer);
    assert_eq!(m.get_reg(1), 4);
    ask(&mut m, 2, &mut timer);
    assert_eq!(m.get_reg(2), 4);
    assert_eq!(m.get_reg(1), 4);
    assert_eq!(m.get_reg(0), 5);
}

#[test]
fn machine_asked_before_the_first_period_reads_the_seed() {
    let mut m = Machine::new(1);
    m.set_reg(7, 33);
    let mut timer = m.init_timer(Some(7));
    ask(&mut m, 1, &mut timer);
    assert_eq!(m.get_reg(1), 33);
    let mut again = m.init_timer(None);
    ask(&mut m, 1, &mut again);
    assert_eq!(m.get_reg(1), 10);
}

#[test]
fn machine_without_a_timer_reads_zero() {
    let mut m = Machine::new(1);
    m.set_reg(1, 9);
    let mut stray = Timer::new(50);
    ask(&mut m, 1, &mut stray);
    assert_eq!(m.get_reg(1), 0);
    assert_eq!(stray.time, 50);
}
