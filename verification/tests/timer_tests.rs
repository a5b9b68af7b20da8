use khushu::config::{AppConfig, PrayerTimesSource};
use khushu::timer::{
    tick, tick_input, AdkarAnchors, AdkarList, AdkarSlot, Hero, Notice, TickInput, TimerState,
    UpcomingPrayer,
};

fn input(now: i64, name: &str, time: i64) -> TickInput {
    let c = AppConfig::default();
    tick_input(
        &c,
        now,
        100,
        Some(UpcomingPrayer { name: name.to_string(), time }),
        None,
        false,
        false,
        true,
        false,
    )
}

#[test]
fn countdown_and_pre_prayer_alert_once() {
    let mut s = TimerState::new(true, 99);
    let out = tick(&mut s, &input(1000, "Asr", 1000 + 3725));
    assert!(out.notices.is_empty());
    let d = out.display.unwrap();
    assert_eq!(d.hero, Hero::Countdown { prayer: "Asr".to_string(), hours: 1, minutes: 2, seconds: 5 });
    assert_eq!(d.next_prayer_name, "Asr");

    let out = tick(&mut s, &input(1000, "Asr", 1000 + 600));
    assert_eq!(out.notices, vec![Notice::PrePrayer("Asr".to_string())]);
    let out = tick(&mut s, &input(1001, "Asr", 1000 + 600));
    assert!(out.notices.is_empty());
}

#[test]
fn sunrise_has_no_pre_alert_and_no_adhan() {
    let mut s = TimerState::new(true, 99);
    let out = tick(&mut s, &input(1000, "Sunrise", 1100));
    assert!(out.notices.is_empty());
    let out = tick(&mut s, &input(1100, "Sunrise", 1100));
    assert_eq!(
        out.notices,
        vec![Notice::PrayerTime { prayer: "Sunrise".to_string(), is_prayer: false }]
    );
    assert_eq!(out.play_adhan, None);
    assert!(s.iqamah.is_none());
}

#[test]
fn adhan_then_iqamah_countdown_then_iqamah_notice() {
    let mut s = TimerState::new(true, 99);
    let out = tick(&mut s, &input(2000, "Asr", 2000));
    assert_eq!(out.notices, vec![Notice::PrayerTime { prayer: "Asr".to_string(), is_prayer: true }]);
    assert_eq!(out.play_adhan.as_deref(), Some("Asr"));
    assert_eq!(s.iqamah.as_ref().unwrap().ends_at, 2600);
    let d = out.display.unwrap();
    assert_eq!(d.hero, Hero::Iqamah { prayer: "Asr".to_string(), minutes: 10, seconds: 0 });
    assert_eq!(d.adhan_prayer_name.as_deref(), Some("Asr"));

    // same moment again: nothing new
    let out = tick(&mut s, &input(2000, "Asr", 2000));
    assert!(out.notices.is_empty());
    assert_eq!(out.play_adhan, None);

    let out = tick(&mut s, &input(2600, "Maghrib", 9000));
    assert_eq!(out.notices, vec![Notice::Iqamah("Asr".to_string())]);
    let out = tick(&mut s, &input(2601, "Maghrib", 9000));
    assert!(out.notices.is_empty());
}

#[test]
fn muted_adhan_is_not_played() {
    let mut c = AppConfig::default();
    c.adhan_muted = true;
    let i = tick_input(
        &c,
        5000,
        100,
        Some(UpcomingPrayer { name: "Isha".to_string(), time: 4990 }),
        None,
        true,
        false,
        true,
        false,
    );
    let mut s = TimerState::new(true, 99);
    let out = tick(&mut s, &i);
    assert_eq!(out.play_adhan, None);
    assert_eq!(out.notices.len(), 1);
    assert_eq!(s.iqamah.as_ref().unwrap().ends_at, 4990 + 600);
}

#[test]
fn secondary_timer_stays_silent() {
    let mut s = TimerState::new(false, 99);
    let out = tick(&mut s, &input(2000, "Asr", 2000));
    assert!(out.notices.is_empty());
    assert_eq!(out.play_adhan, None);
    assert!(out.display.is_some());
}

#[test]
fn adkar_reminders_once_per_day() {
    let c = AppConfig::default();
    let anchors = AdkarAnchors { fajr: 10_000, asr: 30_000, isha: 50_000 };
    let mk = |now: i64, today: i64| {
        tick_input(
            &c,
            now,
            today,
            Some(UpcomingPrayer { name: "Dhuhr".to_string(), time: 20_000 }),
            Some(anchors),
            false,
            false,
            true,
            false,
        )
    };
    let mut s = TimerState::new(true, 99);
    let out = tick(&mut s, &mk(10_070, 100));
    assert!(out.refresh_adkar_lists);
    assert_eq!(out.notices, vec![Notice::Adkar(AdkarSlot::MorningFirst)]);
    let out = tick(&mut s, &mk(10_080, 100));
    assert!(!out.refresh_adkar_lists);
    assert!(out.notices.is_empty());
    let out = tick(&mut s, &mk(11_830, 100));
    assert_eq!(out.notices, vec![Notice::Adkar(AdkarSlot::MorningSecond)]);
    // next day, same window again
    let out = tick(&mut s, &mk(10_070, 101));
    assert!(out.refresh_adkar_lists);
    assert_eq!(out.notices, vec![Notice::Adkar(AdkarSlot::MorningFirst)]);
    assert_eq!(AdkarSlot::NightSecond.source(), (AdkarList::Night, 1));
}

#[test]
fn mosque_refresh_attempted_once_a_day() {
    let mut c = AppConfig::default();
    c.prayer_times_source = PrayerTimesSource::Mawaqit;
    c.mawaqit_auto_refresh_daily = true;
    c.mawaqit_url = Some("u".to_string());
    let i = tick_input(&c, 1, 100, None, None, false, false, true, false);
    let mut s = TimerState::new(true, 99);
    assert!(tick(&mut s, &i).fetch_mawaqit);
    assert!(!tick(&mut s, &i).fetch_mawaqit);
    let i2 = tick_input(&c, 1, 101, None, None, false, false, true, false);
    assert!(tick(&mut s, &i2).fetch_mawaqit);
    let fetched = tick_input(&c, 1, 102, None, None, false, false, true, true);
    assert!(!tick(&mut s, &fetched).fetch_mawaqit);
}

#[test]
fn old_prayer_is_forgotten() {
    let mut s = TimerState::new(true, 99);
    tick(&mut s, &input(2000, "Asr", 2000));
    assert!(s.last_notified_prayer.is_some());
    let out = tick(&mut s, &input(3100, "Asr", 2000));
    assert!(s.last_notified_prayer.is_none());
    assert!(s.iqamah.is_none());
    assert_eq!(out.display.unwrap().hero, Hero::TimeFor { prayer: "Asr".to_string() });
}
