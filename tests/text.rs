use tracing_tree::text::{push_decimal, push_fixed, push_percent, round_div, str_eq};
use tracing_tree::timings::{TimingDisplay, Timings};

fn decimal(n: u128) -> String {
    let mut s = String::new();
    push_decimal(&mut s, n);
    s
}

fn percent(num: u64, den: u64) -> String {
    let mut s = String::new();
    push_percent(&mut s, num, den);
    s
}

#[test]
fn decimal_digits() {
    assert_eq!(decimal(0), "0");
    assert_eq!(decimal(7), "7");
    assert_eq!(decimal(1234567), "1234567");
    assert_eq!(decimal(u64::MAX as u128), "18446744073709551615");
}

#[test]
fn fixed_point_pads_the_fraction() {
    let mut s = String::new();
    push_fixed(&mut s, 1005, 3);
    assert_eq!(s, "1.005");
    let mut s = String::new();
    push_fixed(&mut s, 7, 2);
    assert_eq!(s, "0.07");
    let mut s = String::new();
    push_fixed(&mut s, 42, 0);
    assert_eq!(s, "42");
}

#[test]
fn rounding_is_half_to_even() {
    assert_eq!(round_div(5, 2), 2);
    assert_eq!(round_div(7, 2), 4);
    assert_eq!(round_div(8, 3), 3);
    assert_eq!(round_div(7, 3), 2);
}

#[test]
fn durations_pick_their_unit() {
    assert_eq!(TimingDisplay(0).render(), "0.00ns");
    assert_eq!(TimingDisplay(5).render(), "5.00ns");
    assert_eq!(TimingDisplay(42).render(), "42.0ns");
    assert_eq!(TimingDisplay(512).render(), "512ns");
    assert_eq!(TimingDisplay(1234).render(), "1.23µs");
    assert_eq!(TimingDisplay(12_345).render(), "12.3µs");
    assert_eq!(TimingDisplay(123_456).render(), "123µs");
    assert_eq!(TimingDisplay(1_500_000).render(), "1.50ms");
    assert_eq!(TimingDisplay(15_000_000).render(), "15.0ms");
    assert_eq!(TimingDisplay(2_000_000_000).render(), "2.00s");
    assert_eq!(TimingDisplay(999_999_999_999).render(), "1000s");
    assert_eq!(TimingDisplay(1_234_567_890_123).render(), "1235s");
}

#[test]
fn percentages_have_three_decimals() {
    assert_eq!(percent(1, 3), "33.333");
    assert_eq!(percent(2, 3), "66.667");
    assert_eq!(percent(5, 5), "100.000");
    assert_eq!(percent(0, 0), "NaN");
    assert_eq!(percent(5, 0), "inf");
}

#[test]
fn string_equality() {
    assert!(str_eq("message", "message"));
    assert!(!str_eq("message", "messages"));
    assert!(!str_eq("alarm", "alert"));
    assert!(str_eq("", ""));
}

#[test]
fn fresh_timer_is_empty() {
    let t = Timings::new();
    assert_eq!(t.busy(), 0);
    assert_eq!(t.idle(), 0);
    assert_eq!(t.duration(), 0);
}

#[test]
fn timer_accounts_busy_and_idle_separately() {
    let mut t = Timings::new();
    t.add_idle(100, std::time::Instant::now());
    t.add_busy(250, std::time::Instant::now());
    t.add_busy(50, std::time::Instant::now());
    assert_eq!(t.idle(), 100);
    assert_eq!(t.busy(), 300);
    assert_eq!(t.display_busy().render(), "300ns");
    assert_eq!(t.display_idle().render(), "100ns");
}

#[test]
fn timer_saturates() {
    let mut t = Timings::new();
    t.add_busy(u128::MAX, std::time::Instant::now());
    t.add_busy(1, std::time::Instant::now());
    assert_eq!(t.busy(), u64::MAX);
}

#[test]
fn entering_and_leaving_keeps_counters_apart() {
    let mut t = Timings::new();
    t.now_busy();
    let idle = t.idle();
    assert_eq!(t.busy(), 0);
    t.now_idle();
    assert_eq!(t.idle(), idle);
    t.now_busy();
    t.now_busy();
    assert!(t.idle() >= idle);
}
