use bmos_server::chronometer::{as_string, change_duration, countdown_tick, setting_step, Countdown, Setting};

#[test]
fn ten_more_then_five_less_is_five_minutes() {
    let d = change_duration(change_duration(0, "10more"), "5less");
    assert_eq!(as_string(d), "00:05:00");
}

#[test]
fn five_less_at_zero_stays_zero() {
    assert_eq!(change_duration(0, "5less"), 0);
    assert_eq!(as_string(change_duration(0, "5less")), "00:00:00");
}

#[test]
fn every_adjustment_of_the_table() {
    let base = 60 * 60_000;
    assert_eq!(change_duration(base, "5more"), base + 300_000);
    assert_eq!(change_duration(base, "10more"), base + 600_000);
    assert_eq!(change_duration(base, "20more"), base + 1_200_000);
    assert_eq!(change_duration(base, "5less"), base - 300_000);
    assert_eq!(change_duration(base, "10less"), base - 600_000);
    assert_eq!(change_duration(base, "20less"), base - 1_200_000);
    assert_eq!(change_duration(base, "hello"), base);
    assert_eq!(change_duration(600_000, "20less"), 0);
    assert_eq!(change_duration(u64::MAX - 1, "5more"), u64::MAX);
}

#[test]
fn clock_text_formats() {
    assert_eq!(as_string(0), "00:00:00");
    assert_eq!(as_string(999), "00:00:00");
    assert_eq!(as_string(61_000), "00:01:01");
    assert_eq!(as_string(3_723_000), "01:02:03");
    assert_eq!(as_string(100 * 3_600_000 + 59_000), "100:00:59");
}

#[test]
fn setting_loop_ends_on_done() {
    assert_eq!(setting_step(0, "10more"), Setting::Continue(600_000));
    assert_eq!(setting_step(600_000, "weather"), Setting::Continue(600_000));
    assert_eq!(setting_step(600_000, "done"), Setting::Done(600_000));
}

#[test]
fn thirty_second_countdown_alarms_once_after_three_hundred_ticks() {
    let mut remaining: u64 = 30_000;
    let mut shown: Vec<String> = Vec::new();
    let mut ticks = 0;
    let mut alarms = 0;
    while alarms == 0 {
        ticks += 1;
        match countdown_tick(remaining) {
            Countdown::Show(left) => {
                remaining = left;
                shown.push(as_string(left));
            }
            Countdown::Alarm => alarms += 1,
        }
        assert!(ticks <= 300);
    }
    assert_eq!(ticks, 300);
    assert_eq!(alarms, 1);
    assert_eq!(shown.first().unwrap(), "00:00:29");
    assert_eq!(shown.last().unwrap(), "00:00:00");
}

#[test]
fn countdown_from_zero_alarms_at_once() {
    assert_eq!(countdown_tick(0), Countdown::Alarm);
    assert_eq!(countdown_tick(100), Countdown::Alarm);
    assert_eq!(countdown_tick(150), Countdown::Show(50));
}
