use khushu::config::{
    default_autostart, default_global_arabic_font_family, default_global_ui_font_family,
    default_iqamah_minutes, AppConfig, CalculationMethod, LocationMode, MadhabChoice,
    PrayerTimesSource, QuranBookmark, ThemeMode, TimezoneMode,
};

#[test]
fn test_default_config_arabic_font_family() {
    let config = AppConfig::default();
    assert_eq!(config.global_arabic_font_family, "Amiri, Noto Sans Arabic");
}

#[test]
fn test_default_config_ui_font_family() {
    let config = AppConfig::default();
    assert_eq!(config.global_ui_font_family, "Cantarell, sans-serif");
}

#[test]
fn test_default_config_iqamah_minutes() {
    let config = AppConfig::default();
    let iqamah = &config.iqamah_minutes;
    assert_eq!(iqamah.get("Fajr"), Some(20));
    assert_eq!(iqamah.get("Dhuhr"), Some(10));
    assert_eq!(iqamah.get("Asr"), Some(10));
    assert_eq!(iqamah.get("Maghrib"), Some(5));
    assert_eq!(iqamah.get("Isha"), Some(10));
}

#[test]
fn default_config_choices() {
    let c = AppConfig::default();
    assert_eq!(c.method, CalculationMethod::MWL);
    assert_eq!(c.madhab, MadhabChoice::Shafi);
    assert_eq!(c.location_mode, LocationMode::Manual);
    assert_eq!(c.theme, ThemeMode::System);
    assert_eq!(c.prayer_times_source, PrayerTimesSource::Calculated);
    assert_eq!(c.timezone_mode, TimezoneMode::Auto);
    assert_eq!(c.language, "auto");
    assert_eq!(c.pre_prayer_minutes, 15);
    assert!(c.pre_prayer_notify && c.adkar_notification_enabled && c.autostart);
    assert!(!c.adhan_muted && !c.is_configured);
    assert_eq!(c.iqamah_minutes.len(), 5);
}

#[test]
fn default_helpers() {
    assert!(default_autostart());
    assert_eq!(default_global_arabic_font_family(), "Amiri, Noto Sans Arabic");
    assert_eq!(default_global_ui_font_family(), "Cantarell, sans-serif");
    assert_eq!(default_iqamah_minutes().get("Sunrise"), None);
}

#[test]
fn iqamah_read_after_write() {
    let mut m = default_iqamah_minutes();
    m.insert("Asr".to_string(), 25);
    assert_eq!(m.get("Asr"), Some(25));
    assert_eq!(m.get("Fajr"), Some(20));
    assert_eq!(m.len(), 5);
    m.insert("Jumuah".to_string(), 30);
    assert_eq!(m.get("Jumuah"), Some(30));
    assert_eq!(m.len(), 6);
}

#[test]
fn iqamah_minutes_fallback() {
    let c = AppConfig::default();
    assert_eq!(c.iqamah_minutes_or("Fajr", 10), 20);
    assert_eq!(c.iqamah_minutes_or("Sunrise", 10), 10);
}

#[test]
fn legacy_bookmark_is_migrated_once() {
    let mut c = AppConfig::default();
    c.quran_bookmark_surah = Some(2);
    c.quran_bookmark_page = Some(5);
    c.migrate_legacy_bookmark();
    assert_eq!(c.quran_bookmarks, vec![QuranBookmark { page: 5, surah: 2, verse: 1 }]);
    c.migrate_legacy_bookmark();
    assert_eq!(c.quran_bookmarks.len(), 1);
}

#[test]
fn legacy_bookmark_needs_both_parts() {
    let mut c = AppConfig::default();
    c.quran_bookmark_surah = Some(2);
    c.migrate_legacy_bookmark();
    assert!(c.quran_bookmarks.is_empty());
}

#[test]
fn obfuscation_hides_url_and_restore_brings_it_back() {
    let mut c = AppConfig::default();
    c.mawaqit_url = Some("https://mawaqit.net/en/m/some-mosque".to_string());
    c.apply_obfuscation(Some("LAT".to_string()), None, Some("ENCURL".to_string()));
    assert_eq!(c.enc_lat, "LAT");
    assert_eq!(c.enc_lon, "");
    assert_eq!(c.enc_mawaqit_url, "ENCURL");
    assert_eq!(c.mawaqit_url, None);
    assert!(c.mawaqit_url_needs_restore());
    c.restore_mawaqit_url(Some("https://mawaqit.net/en/m/some-mosque".to_string()));
    assert_eq!(c.mawaqit_url.as_deref(), Some("https://mawaqit.net/en/m/some-mosque"));
    assert!(!c.mawaqit_url_needs_restore());
}

#[test]
fn failed_obfuscation_keeps_url() {
    let mut c = AppConfig::default();
    c.mawaqit_url = Some("u".to_string());
    c.apply_obfuscation(None, None, None);
    assert_eq!(c.mawaqit_url.as_deref(), Some("u"));
    assert_eq!(c.enc_mawaqit_url, "");
}

#[test]
fn restore_without_decoded_url_changes_nothing() {
    let mut c = AppConfig::default();
    c.enc_mawaqit_url = "X".to_string();
    c.restore_mawaqit_url(None);
    assert_eq!(c.mawaqit_url, None);
}

#[test]
fn quran_state_sync_keeps_other_settings() {
    let mut c = AppConfig::default();
    c.language = "fr".to_string();
    let mut latest = AppConfig::default();
    latest.quran_last_page = Some(77);
    latest.quran_bookmarks.push(QuranBookmark { page: 3, surah: 2, verse: 4 });
    c.sync_quran_state_from(latest);
    assert_eq!(c.quran_last_page, Some(77));
    assert_eq!(c.quran_bookmarks.len(), 1);
    assert_eq!(c.language, "fr");
}

#[test]
fn choosing_location_mode_leaves_mosque_source() {
    let mut c = AppConfig::default();
    c.prayer_times_source = PrayerTimesSource::Mawaqit;
    assert!(c.select_location_mode(LocationMode::Auto));
    assert_eq!(c.prayer_times_source, PrayerTimesSource::Calculated);
    assert_eq!(c.location_mode, LocationMode::Auto);
    assert!(!c.select_location_mode(LocationMode::City));
    assert_eq!(c.location_mode, LocationMode::City);
}

#[test]
fn mawaqit_refresh_needs_source_flag_and_url() {
    let mut c = AppConfig::default();
    c.prayer_times_source = PrayerTimesSource::Mawaqit;
    c.mawaqit_auto_refresh_daily = true;
    assert!(!c.mawaqit_refresh_wanted());
    c.mawaqit_url = Some("u".to_string());
    assert!(c.mawaqit_refresh_wanted());
}

#[test]
fn iqamah_prayers_listed_once() {
    let mut m = default_iqamah_minutes();
    m.insert("Jumuah".to_string(), 30);
    m.insert("Asr".to_string(), 15);
    let mut names = m.prayers();
    names.sort();
    assert_eq!(names, vec!["Asr", "Dhuhr", "Fajr", "Isha", "Jumuah", "Maghrib"]);
}
