use khushu::display::{
    contains_arabic, hero_keys, hero_line, hijri_line, hijri_parts, hijri_text, notice_keys,
    notice_text, tray_label_keys, tray_language,
};
use khushu::i18n::tr;
use khushu::timer::{AdkarSlot, Hero, Notice};

#[test]
fn arabic_detection() {
    assert!(contains_arabic("الجزائر"));
    assert!(contains_arabic("Algiers - الجزائر"));
    assert!(!contains_arabic("Algiers, Algeria"));
    assert!(!contains_arabic(""));
    assert!(contains_arabic("\u{FDFD}"));
}

#[test]
fn hijri_dates() {
    assert_eq!(hijri_line(1, "Ramadan", 1445), "1 Ramadan 1445");
    assert_eq!(hijri_parts(2024, 3, 11), Some((1, "Ramadan", 1445)));
    assert_eq!(hijri_parts(2000, 7, 31), Some((29, "Rabi' al-Thani", 1421)));
    assert_eq!(hijri_parts(1900, 1, 1), None);
    assert_eq!(hijri_parts(2024, 13, 1), None);
    assert_eq!(hijri_parts(2024, 2, 30), None);
    assert_eq!(hijri_text(Some((1, "Ramadan".to_string(), 1445))), "1 Ramadan 1445");
    assert_eq!(hijri_text(None), "—");
    let translated = hijri_parts(2024, 3, 11).map(|(d, k, y)| (d, tr(k, "en"), y));
    assert_eq!(hijri_text(translated), "1 Ramadan 1445");
}

#[test]
fn home_page_lines() {
    let h = Hero::Countdown { prayer: "Asr".into(), hours: 1, minutes: 2, seconds: 5 };
    assert_eq!(hero_keys(&h), ("Asr", "in"));
    assert_eq!(hero_line(&h, "Asr", "in"), "Asr in 01:02:05");
    let h = Hero::Countdown { prayer: "Asr".into(), hours: 123, minutes: 0, seconds: 59 };
    assert_eq!(hero_line(&h, "Asr", "in"), "Asr in 123:00:59");
    let h = Hero::TimeFor { prayer: "Isha".into() };
    assert_eq!(hero_keys(&h), ("Isha", "It's time for"));
    assert_eq!(hero_line(&h, "Isha", "It's time for"), "It's time for Isha");
    let h = Hero::Iqamah { prayer: "Fajr".into(), minutes: 9, seconds: 30 };
    assert_eq!(hero_keys(&h), ("Fajr", "Iqamah"));
    assert_eq!(hero_line(&h, "Fajr", "Iqamah"), "Iqamah Fajr 09:30");
}

fn untranslated(notice: &Notice) -> (String, Option<String>) {
    let keys = notice_keys(notice);
    notice_text(notice, 15, &keys)
}

#[test]
fn notification_texts() {
    assert_eq!(
        notice_keys(&Notice::PrePrayer("Asr".into())),
        vec!["Upcoming Prayer:", "Asr", "is in", "minutes"]
    );
    let (t, b) = untranslated(&Notice::PrePrayer("Asr".into()));
    assert_eq!(t, "Upcoming Prayer: Asr");
    assert_eq!(b.as_deref(), Some("Asr is in 15 minutes"));
    let (t, b) = untranslated(&Notice::PrayerTime { prayer: "Dhuhr".into(), is_prayer: true });
    assert_eq!(t, "It's time for Dhuhr");
    assert_eq!(b.as_deref(), Some("It is now time for Dhuhr."));
    let (t, b) = untranslated(&Notice::Iqamah("Maghrib".into()));
    assert_eq!(t, "Iqamah Maghrib");
    assert_eq!(b.as_deref(), Some("It is time for Iqamah of Maghrib."));
    let (t, b) = untranslated(&Notice::Adkar(AdkarSlot::EveningSecond));
    assert_eq!(t, "Evening Adkar");
    assert_eq!(b, None);
    let words = vec!["Prochaine prière :".to_string(), "Asr".into(), "dans".into(), "min".into()];
    let (t, b) = notice_text(&Notice::PrePrayer("Asr".into()), 5, &words);
    assert_eq!(t, "Prochaine prière : Asr");
    assert_eq!(b.as_deref(), Some("Asr dans 5 min"));
}

#[test]
fn tray() {
    assert_eq!(tray_label_keys(), ("Open Khushu", "Quit"));
    assert_eq!(tray_language(""), "en");
    assert_eq!(tray_language("fr"), "fr");
}
