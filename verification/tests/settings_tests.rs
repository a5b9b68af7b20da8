use khushu::config::{
    AppConfig, CalculationMethod, LocationMode, MadhabChoice, PrayerTimesSource, ThemeMode,
    TimezoneMode,
};
use khushu::settings::{
    entry_for_file_name, entry_has_text, eq_ignore_ascii_case, mosque_timezone_override,
    preset_label_key_of, timezone_entry_mark, EntryMark, LabelText,
    adhan_preset_label, audio_toggle_label_key, iqamah_rows, location_mode_for_index,
    location_mode_index, madhab_for_index, madhab_index, mawaqit_subtitle, mawaqit_title,
    method_for_index, method_index, preset_sound_path, sound_index, source_for_index,
    source_index, theme_for_index, theme_index, timezone_mode_for_selection,
    timezone_mode_index,
};

#[test]
fn choice_lists() {
    assert_eq!(theme_index(ThemeMode::Dark), 2);
    assert_eq!(theme_for_index(1), ThemeMode::Light);
    assert_eq!(theme_for_index(7), ThemeMode::System);
    assert_eq!(location_mode_index(LocationMode::Auto), 2);
    assert_eq!(location_mode_for_index(9), LocationMode::Manual);
    assert_eq!(source_index(PrayerTimesSource::Mawaqit), 1);
    assert_eq!(source_for_index(0), PrayerTimesSource::Calculated);
    assert_eq!(method_index(CalculationMethod::MoonsightingCommittee), 6);
    assert_eq!(method_for_index(10), CalculationMethod::Turkey);
    assert_eq!(method_for_index(42), CalculationMethod::MWL);
    assert_eq!(madhab_index(MadhabChoice::Hanafi), 1);
    assert_eq!(madhab_for_index(0), MadhabChoice::Shafi);
    assert_eq!(timezone_mode_index(&TimezoneMode::UtcOffset(60)), 2);
    for i in 0..11 {
        assert_eq!(method_index(method_for_index(i)), i);
    }
}

#[test]
fn timezone_selection() {
    let cur = TimezoneMode::Named("Africa/Algiers".into());
    assert_eq!(
        timezone_mode_for_selection(1, Some("Europe/Paris".into()), &cur, 0),
        TimezoneMode::Named("Europe/Paris".into())
    );
    assert_eq!(timezone_mode_for_selection(1, None, &cur, 0), TimezoneMode::Named("Africa/Algiers".into()));
    assert_eq!(timezone_mode_for_selection(1, None, &TimezoneMode::Named("  ".into()), 0), TimezoneMode::Auto);
    assert_eq!(timezone_mode_for_selection(2, None, &cur, 90), TimezoneMode::UtcOffset(90));
    assert_eq!(timezone_mode_for_selection(0, Some("X".into()), &cur, 90), TimezoneMode::Auto);
}

#[test]
fn adhan_sound_entries() {
    assert_eq!(sound_index(None), 0);
    assert_eq!(sound_index(Some("assets/audio/Madinah.mp3")), 2);
    assert_eq!(sound_index(Some("assets/audio/Makkah.mp3")), 3);
    assert_eq!(sound_index(Some("/home/u/my.mp3")), 1);
    assert_eq!(preset_sound_path(2), "assets/audio/Madinah.mp3");
    assert_eq!(preset_sound_path(3), "assets/audio/Makkah.mp3");
    assert_eq!(sound_index(Some(&preset_sound_path(3))), 3);
}

#[test]
fn preset_labels() {
    assert_eq!(adhan_preset_label("Makkah.mp3"), LabelText::Message("Makkah Adhan"));
    assert_eq!(adhan_preset_label("Madinah.mp3"), LabelText::Message("Madinah Adhan"));
    assert_eq!(adhan_preset_label("Other.mp3"), LabelText::Verbatim("Other".to_string()));
    assert_eq!(adhan_preset_label("Makkah"), LabelText::Message("Makkah Adhan"));
    assert_eq!(audio_toggle_label_key("Test Notification", true), "⏹ Stop Adhan");
    assert_eq!(audio_toggle_label_key("Test Notification", false), "Test Notification");
}

#[test]
fn iqamah_setting_rows() {
    let mut c = AppConfig::default();
    c.iqamah_minutes = khushu::config::IqamahMinutes::new();
    c.iqamah_minutes.insert("Asr".into(), 15);
    let rows = iqamah_rows(&c);
    let expected: Vec<(String, u32)> = vec![
        ("Fajr".into(), 20),
        ("Dhuhr".into(), 10),
        ("Asr".into(), 15),
        ("Maghrib".into(), 5),
        ("Isha".into(), 10),
    ];
    assert_eq!(rows, expected);
}

#[test]
fn connected_mosque_labels() {
    assert_eq!(mawaqit_title(Some("Grande Mosquée"), "u"), "Grande Mosquée");
    assert_eq!(mawaqit_title(None, "https://mawaqit.net/x"), "https://mawaqit.net/x");
    assert_eq!(mawaqit_subtitle("", "Last updated", "2026-04-22"), "Last updated • 2026-04-22");
    assert_eq!(
        mawaqit_subtitle("Algiers (UTC+1)", "Last updated", "2026-04-22"),
        "Algiers (UTC+1) • Last updated • 2026-04-22"
    );
}

#[test]
fn sound_entries_by_file_name() {
    assert_eq!(entry_for_file_name(Some("Madinah.mp3")), 2);
    assert_eq!(entry_for_file_name(Some("Makkah.mp3")), 3);
    assert_eq!(entry_for_file_name(Some("makkah.mp3")), 1);
    assert_eq!(entry_for_file_name(None), 1);
    assert_eq!(sound_index(Some("/")), 1);
}

#[test]
fn preset_label_keys() {
    assert_eq!(preset_label_key_of("Makkah"), Some("Makkah Adhan"));
    assert_eq!(preset_label_key_of("Madinah"), Some("Madinah Adhan"));
    assert_eq!(preset_label_key_of("Madinah.mp3"), None);
}

#[test]
fn entry_marks() {
    assert_eq!(timezone_entry_mark("Europe/Paris", true, true), EntryMark::Success);
    assert_eq!(timezone_entry_mark("Europe/Paris", true, false), EntryMark::Plain);
    assert_eq!(timezone_entry_mark("Nowhere/Here", false, true), EntryMark::Error);
    assert_eq!(timezone_entry_mark("   ", false, true), EntryMark::Plain);
    assert!(entry_has_text(" Oran "));
    assert!(!entry_has_text(" \t "));
}

#[test]
fn mosque_time_zone() {
    assert!(eq_ignore_ascii_case("Africa/Algiers", "africa/ALGIERS"));
    assert!(!eq_ignore_ascii_case("Africa/Algiers", "Africa/Algier"));
    assert_eq!(mosque_timezone_override(Some("Europe/Paris"), Some("europe/paris")), None);
    assert_eq!(
        mosque_timezone_override(Some("Europe/Paris"), Some("Africa/Algiers")).as_deref(),
        Some("Europe/Paris")
    );
    assert_eq!(mosque_timezone_override(Some("Europe/Paris"), None), None);
    assert_eq!(mosque_timezone_override(None, Some("Europe/Paris")), None);
}
