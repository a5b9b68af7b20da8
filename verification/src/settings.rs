//! The settings page's rules: which entry of each choice list stands for
//! which setting (both ways), how the time zone mode follows a selection,
//! which Adhan sound entry a stored path selects and the path each entry
//! stores, and the labels derived from settings.
use vstd::prelude::*;
use crate::config::{
    AppConfig, CalculationMethod, LocationMode, MadhabChoice, PrayerTimesSource, ThemeMode,
    TimezoneMode,
};
use crate::text::{append_str, owned, str_eq, trim, trimmed};

verus! {

// ------------------------------------------------------------ choice lists
pub open spec fn theme_index_spec(t: ThemeMode) -> u32 {
    match t {
        ThemeMode::System => 0u32,
        ThemeMode::Light => 1u32,
        ThemeMode::Dark => 2u32,
    }
}

pub fn theme_index(t: ThemeMode) -> (i: u32)
    ensures
        i == theme_index_spec(t),
{
    match t {
        ThemeMode::Light => 1,
        ThemeMode::Dark => 2,
        _ => 0,
    }
}

pub open spec fn theme_for_index_spec(i: u32) -> ThemeMode {
    if i == 1 {
        ThemeMode::Light
    } else if i == 2 {
        ThemeMode::Dark
    } else {
        ThemeMode::System
    }
}

pub fn theme_for_index(i: u32) -> (t: ThemeMode)
    ensures
        t == theme_for_index_spec(i),
{
    match i {
        1 => ThemeMode::Light,
        2 => ThemeMode::Dark,
        _ => ThemeMode::System,
    }
}

pub open spec fn location_mode_index_spec(m: LocationMode) -> u32 {
    match m {
        LocationMode::Manual => 0u32,
        LocationMode::City => 1u32,
        LocationMode::Auto => 2u32,
    }
}

pub fn location_mode_index(m: LocationMode) -> (i: u32)
    ensures
        i == location_mode_index_spec(m),
{
    match m {
        LocationMode::Manual => 0,
        LocationMode::City => 1,
        LocationMode::Auto => 2,
    }
}

pub open spec fn location_mode_for_index_spec(i: u32) -> LocationMode {
    if i == 1 {
        LocationMode::City
    } else if i == 2 {
        LocationMode::Auto
    } else {
        LocationMode::Manual
    }
}

pub fn location_mode_for_index(i: u32) -> (m: LocationMode)
    ensures
        m == location_mode_for_index_spec(i),
{
    match i {
        1 => LocationMode::City,
        2 => LocationMode::Auto,
        _ => LocationMode::Manual,
    }
}

pub open spec fn source_index_spec(s: PrayerTimesSource) -> u32 {
    if s == PrayerTimesSource::Mawaqit {
        1u32
    } else {
        0u32
    }
}

pub fn source_index(s: PrayerTimesSource) -> (i: u32)
    ensures
        i == source_index_spec(s),
{
    match s {
        PrayerTimesSource::Calculated => 0,
        PrayerTimesSource::Mawaqit => 1,
    }
}

pub open spec fn source_for_index_spec(i: u32) -> PrayerTimesSource {
    if i == 1 {
        PrayerTimesSource::Mawaqit
    } else {
        PrayerTimesSource::Calculated
    }
}

pub fn source_for_index(i: u32) -> (s: PrayerTimesSource)
    ensures
        s == source_for_index_spec(i),
{
    if i == 1 {
        PrayerTimesSource::Mawaqit
    } else {
        PrayerTimesSource::Calculated
    }
}

pub open spec fn method_index_spec(m: CalculationMethod) -> u32 {
    match m {
        CalculationMethod::MWL => 0u32,
        CalculationMethod::ISNA => 1u32,
        CalculationMethod::Egypt => 2u32,
        CalculationMethod::Makkah => 3u32,
        CalculationMethod::Karachi => 4u32,
        CalculationMethod::Dubai => 5u32,
        CalculationMethod::MoonsightingCommittee => 6u32,
        CalculationMethod::Kuwait => 7u32,
        CalculationMethod::Qatar => 8u32,
        CalculationMethod::Singapore => 9u32,
        CalculationMethod::Turkey => 10u32,
    }
}

pub fn method_index(m: CalculationMethod) -> (i: u32)
    ensures
        i == method_index_spec(m),
{
    match m {
        CalculationMethod::MWL => 0,
        CalculationMethod::ISNA => 1,
        CalculationMethod::Egypt => 2,
        CalculationMethod::Makkah => 3,
        CalculationMethod::Karachi => 4,
        CalculationMethod::Dubai => 5,
        CalculationMethod::MoonsightingCommittee => 6,
        CalculationMethod::Kuwait => 7,
        CalculationMethod::Qatar => 8,
        CalculationMethod::Singapore => 9,
        CalculationMethod::Turkey => 10,
    }
}

pub open spec fn method_for_index_spec(i: u32) -> CalculationMethod {
    if i == 1 {
        CalculationMethod::ISNA
    } else if i == 2 {
        CalculationMethod::Egypt
    } else if i == 3 {
        CalculationMethod::Makkah
    } else if i == 4 {
        CalculationMethod::Karachi
    } else if i == 5 {
        CalculationMethod::Dubai
    } else if i == 6 {
        CalculationMethod::MoonsightingCommittee
    } else if i == 7 {
        CalculationMethod::Kuwait
    } else if i == 8 {
        CalculationMethod::Qatar
    } else if i == 9 {
        CalculationMethod::Singapore
    } else if i == 10 {
        CalculationMethod::Turkey
    } else {
        CalculationMethod::MWL
    }
}

pub fn method_for_index(i: u32) -> (m: CalculationMethod)
    ensures
        m == method_for_index_spec(i),
{
    match i {
        1 => CalculationMethod::ISNA,
        2 => CalculationMethod::Egypt,
        3 => CalculationMethod::Makkah,
        4 => CalculationMethod::Karachi,
        5 => CalculationMethod::Dubai,
        6 => CalculationMethod::MoonsightingCommittee,
        7 => CalculationMethod::Kuwait,
        8 => CalculationMethod::Qatar,
        9 => CalculationMethod::Singapore,
        10 => CalculationMethod::Turkey,
        _ => CalculationMethod::MWL,
    }
}

pub open spec fn madhab_index_spec(m: MadhabChoice) -> u32 {
    if m == MadhabChoice::Hanafi {
        1u32
    } else {
        0u32
    }
}

pub fn madhab_index(m: MadhabChoice) -> (i: u32)
    ensures
        i == madhab_index_spec(m),
{
    if m == MadhabChoice::Hanafi {
        1
    } else {
        0
    }
}

pub open spec fn madhab_for_index_spec(i: u32) -> MadhabChoice {
    if i == 1 {
        MadhabChoice::Hanafi
    } else {
        MadhabChoice::Shafi
    }
}

pub fn madhab_for_index(i: u32) -> (m: MadhabChoice)
    ensures
        m == madhab_for_index_spec(i),
{
    if i == 1 {
        MadhabChoice::Hanafi
    } else {
        MadhabChoice::Shafi
    }
}

pub open spec fn timezone_mode_index_spec(m: TimezoneMode) -> u32 {
    match m {
        TimezoneMode::Auto => 0u32,
        TimezoneMode::Named(_) => 1u32,
        TimezoneMode::UtcOffset(_) => 2u32,
    }
}

pub fn timezone_mode_index(m: &TimezoneMode) -> (i: u32)
    ensures
        i == timezone_mode_index_spec(*m),
{
    match m {
        TimezoneMode::Auto => 0,
        TimezoneMode::Named(_) => 1,
        TimezoneMode::UtcOffset(_) => 2,
    }
}

/// The time zone mode chosen in the settings: for the named entry, the
/// validated zone typed in, else the zone already configured (when it is
/// not blank), else automatic; for the offset entry, the offset shown.
pub open spec fn timezone_selection_spec(
    selected: u32,
    validated: Option<Seq<char>>,
    current: TimezoneMode,
    offset_minutes: i32,
) -> Option<Seq<char>> {
    if selected == 1 {
        if validated is Some {
            validated
        } else {
            match current {
                TimezoneMode::Named(n) => if trim(n@).len() > 0 {
                    Some(n@)
                } else {
                    None
                },
                _ => None,
            }
        }
    } else {
        None
    }
}

pub fn timezone_mode_for_selection(
    selected: u32,
    validated: Option<String>,
    current: &TimezoneMode,
    offset_minutes: i32,
) -> (m: TimezoneMode)
    ensures
        selected == 2 ==> m == TimezoneMode::UtcOffset(offset_minutes),
        selected != 1 && selected != 2 ==> m == TimezoneMode::Auto,
        selected == 1 ==> match timezone_selection_spec(
            selected,
            match validated {
                Some(v) => Some(v@),
                None => None,
            },
            *current,
            offset_minutes,
        ) {
            Some(n) => m matches TimezoneMode::Named(z) && z@ == n,
            None => m == TimezoneMode::Auto,
        },
{
    if selected == 1 {
        if let Some(name) = validated {
            return TimezoneMode::Named(name);
        }
        if let TimezoneMode::Named(name) = current {
            let t = trimmed(name.as_str());
            if t.unicode_len() > 0 {
                return TimezoneMode::Named(owned(name.as_str()));
            }
        }
        TimezoneMode::Auto
    } else if selected == 2 {
        TimezoneMode::UtcOffset(offset_minutes)
    } else {
        TimezoneMode::Auto
    }
}

// ------------------------------------------------------------ Adhan sounds
/// The recordings offered besides the default and a custom file.
pub open spec fn preset_files() -> Seq<Seq<char>> {
    seq!["Madinah.mp3"@, "Makkah.mp3"@]
}

/// What `Path::file_name` gives for a path.
pub uninterp spec fn path_file_name(path: Seq<char>) -> Option<Seq<char>>;

/// `std::path::Path::file_name`, as text.
#[verifier::external_body]
fn file_name_of(path: &str) -> (r: Option<String>)
    ensures
        match r {
            Some(n) => path_file_name(path@) == Some(n@),
            None => path_file_name(path@) is None,
        },
{
    std::path::Path::new(path).file_name().and_then(|n| n.to_str()).map(|n| n.to_string())
}

/// What `Path::file_stem` gives for a path.
pub uninterp spec fn path_file_stem(path: Seq<char>) -> Option<Seq<char>>;

/// `std::path::Path::file_stem`, as text.
#[verifier::external_body]
fn file_stem_of(path: &str) -> (r: Option<String>)
    ensures
        match r {
            Some(n) => path_file_stem(path@) == Some(n@),
            None => path_file_stem(path@) is None,
        },
{
    std::path::Path::new(path).file_stem().and_then(|n| n.to_str()).map(|n| n.to_string())
}

/// The sound entry for a stored path whose file name is `name`: 2 + k for
/// the k-th preset file, 1 (custom file) otherwise.
pub open spec fn entry_for_file_name_spec(name: Option<Seq<char>>) -> u32 {
    match name {
        Some(n) => if n == preset_files()[0] {
            2u32
        } else if n == preset_files()[1] {
            3u32
        } else {
            1u32
        },
        None => 1u32,
    }
}

pub fn entry_for_file_name(name: Option<&str>) -> (i: u32)
    ensures
        i == entry_for_file_name_spec(
            match name {
                Some(n) => Some(n@),
                None => None,
            },
        ),
{
    match name {
        Some(n) => if str_eq(n, "Madinah.mp3") {
            2
        } else if str_eq(n, "Makkah.mp3") {
            3
        } else {
            1
        },
        None => 1,
    }
}

/// The sound entry selected for a stored sound path: 0 for the default
/// (no path), else by the path's file name.
pub open spec fn sound_index_spec(path: Option<Seq<char>>) -> u32 {
    match path {
        None => 0u32,
        Some(p) => entry_for_file_name_spec(path_file_name(p)),
    }
}

pub fn sound_index(path: Option<&str>) -> (i: u32)
    ensures
        i == sound_index_spec(
            match path {
                Some(p) => Some(p@),
                None => None,
            },
        ),
{
    match path {
        None => 0,
        Some(p) => {
            let name = file_name_of(p);
            match &name {
                Some(n) => entry_for_file_name(Some(n.as_str())),
                None => entry_for_file_name(None),
            }
        },
    }
}

/// The sound path stored when preset entry `index` (2 or 3) is chosen.
pub fn preset_sound_path(index: u32) -> (p: String)
    requires
        2 <= index < 4,
    ensures
        p@ == "assets/audio/"@ + preset_files()[index - 2],
{
    let mut p = owned("assets/audio/");
    if index == 2 {
        append_str(&mut p, "Madinah.mp3");
    } else {
        append_str(&mut p, "Makkah.mp3");
    }
    p
}

/// The message shown for a preset sound file: its name without extension,
/// or the translated name of the two bundled recordings.
pub open spec fn preset_label_key(stem: Seq<char>) -> Option<Seq<char>> {
    if stem == "Makkah"@ {
        Some("Makkah Adhan"@)
    } else if stem == "Madinah"@ {
        Some("Madinah Adhan"@)
    } else {
        None
    }
}

pub fn preset_label_key_of(stem: &str) -> (k: Option<&'static str>)
    ensures
        match k {
            Some(key) => preset_label_key(stem@) == Some(key@) && !key@.contains('\0'),
            None => preset_label_key(stem@) is None,
        },
{
    proof {
        reveal_strlit("Makkah Adhan");
        reveal_strlit("Madinah Adhan");
    }
    if str_eq(stem, "Makkah") {
        Some("Makkah Adhan")
    } else if str_eq(stem, "Madinah") {
        Some("Madinah Adhan")
    } else {
        None
    }
}

/// A label: a message to translate, or text shown as it is.
#[derive(Debug, PartialEq, Eq)]
pub enum LabelText {
    Message(&'static str),
    Verbatim(String),
}

/// The label of a preset sound file: the message naming one of the two
/// bundled recordings, else the file's name without extension.
pub fn adhan_preset_label(file_name: &str) -> (r: LabelText)
    ensures
        ({
            let stem = match path_file_stem(file_name@) {
                Some(s) => s,
                None => file_name@,
            };
            match preset_label_key(stem) {
                Some(k) => r matches LabelText::Message(m) && m@ == k && !m@.contains('\0'),
                None => r matches LabelText::Verbatim(t) && t@ == stem,
            }
        }),
{
    let stem = match file_stem_of(file_name) {
        Some(s) => s,
        None => owned(file_name),
    };
    match preset_label_key_of(stem.as_str()) {
        Some(key) => LabelText::Message(key),
        None => LabelText::Verbatim(stem),
    }
}

/// The message on the preview and test buttons: "Stop" while the Adhan plays.
pub fn audio_toggle_label_key<'a>(idle_label_key: &'a str, is_playing: bool) -> (k: &'a str)
    ensures
        k@ == if is_playing {
            "⏹ Stop Adhan"@
        } else {
            idle_label_key@
        },
{
    if is_playing {
        "⏹ Stop Adhan"
    } else {
        idle_label_key
    }
}

// ------------------------------------------------------------ Iqamah rows
/// The prayers with an Iqamah delay setting and the delay shown when none is stored.
pub open spec fn iqamah_defaults() -> Seq<(Seq<char>, u32)> {
    seq![("Fajr"@, 20u32), ("Dhuhr"@, 10u32), ("Asr"@, 10u32), ("Maghrib"@, 5u32), ("Isha"@, 10u32)]
}

/// The value each Iqamah delay row shows.
pub fn iqamah_rows(config: &AppConfig) -> (rows: Vec<(String, u32)>)
    requires
        config.wf(),
    ensures
        rows@.len() == 5,
        forall|k: int|
            0 <= k < 5 ==> rows@[k].0@ == iqamah_defaults()[k].0 && rows@[k].1 == (
            if config.iqamah_minutes@.contains_key(iqamah_defaults()[k].0) {
                config.iqamah_minutes@[iqamah_defaults()[k].0]
            } else {
                iqamah_defaults()[k].1
            }),
{
    let mut rows: Vec<(String, u32)> = Vec::new();
    let f = config.iqamah_minutes_or("Fajr", 20);
    rows.push((owned("Fajr"), f));
    let d = config.iqamah_minutes_or("Dhuhr", 10);
    rows.push((owned("Dhuhr"), d));
    let a = config.iqamah_minutes_or("Asr", 10);
    rows.push((owned("Asr"), a));
    let m = config.iqamah_minutes_or("Maghrib", 5);
    rows.push((owned("Maghrib"), m));
    let i = config.iqamah_minutes_or("Isha", 10);
    rows.push((owned("Isha"), i));
    rows
}

// ------------------------------------------------------------ connected mosque
/// The title of the connected-mosque row: the mosque's name, else its URL.
pub fn mawaqit_title(mosque_name: Option<&str>, url: &str) -> (r: String)
    ensures
        r@ == match mosque_name {
            Some(n) => n@,
            None => url@,
        },
{
    match mosque_name {
        Some(n) => owned(n),
        None => owned(url),
    }
}

/// The subtitle of the connected-mosque row: time zone (when known), the
/// "Last updated" label and the day of the last fetch, joined by bullets.
pub open spec fn mawaqit_subtitle_spec(tz_label: Seq<char>, last_updated: Seq<char>, fetched_on: Seq<char>) -> Seq<char> {
    if tz_label.len() == 0 {
        last_updated + " • "@ + fetched_on
    } else {
        tz_label + " • "@ + last_updated + " • "@ + fetched_on
    }
}

pub fn mawaqit_subtitle(tz_label: &str, last_updated: &str, fetched_on: &str) -> (r: String)
    ensures
        r@ == mawaqit_subtitle_spec(tz_label@, last_updated@, fetched_on@),
{
    let mut r = String::new();
    if tz_label.unicode_len() > 0 {
        append_str(&mut r, tz_label);
        append_str(&mut r, " • ");
    }
    append_str(&mut r, last_updated);
    append_str(&mut r, " • ");
    append_str(&mut r, fetched_on);
    r
}

// ------------------------------------------------------------ entries
/// How an entry row is marked.
#[derive(Clone, Copy, Debug, PartialEq, Eq, Structural)]
pub enum EntryMark {
    Plain,
    Success,
    Error,
}

/// The mark of the time zone entry: success for a valid zone while the user
/// is editing it, error for text that is not a valid zone, nothing when blank.
pub fn timezone_entry_mark(text: &str, is_valid: bool, keep_success: bool) -> (m: EntryMark)
    ensures
        m == if is_valid {
            if keep_success && trim(text@).len() > 0 {
                EntryMark::Success
            } else {
                EntryMark::Plain
            }
        } else if trim(text@).len() == 0 {
            EntryMark::Plain
        } else {
            EntryMark::Error
        },
{
    let blank = trimmed(text).unicode_len() == 0;
    if is_valid {
        if keep_success && !blank {
            EntryMark::Success
        } else {
            EntryMark::Plain
        }
    } else if blank {
        EntryMark::Plain
    } else {
        EntryMark::Error
    }
}

/// A city search or a mosque URL is only sent when it is not blank.
pub fn entry_has_text(text: &str) -> (r: bool)
    ensures
        r == (trim(text@).len() > 0),
{
    trimmed(text).unicode_len() > 0
}

/// `c` with ASCII letters in lower case.
pub open spec fn ascii_lower(c: char) -> char {
    if 'A' <= c <= 'Z' {
        ((c as u32) + 32) as char
    } else {
        c
    }
}

/// Equality up to ASCII case (`str::eq_ignore_ascii_case`).
pub open spec fn eq_ignore_ascii_case_spec(a: Seq<char>, b: Seq<char>) -> bool {
    a.len() == b.len() && forall|i: int| 0 <= i < a.len() ==> ascii_lower(a[i]) == ascii_lower(b[i])
}

fn lower(c: char) -> (r: char)
    ensures
        r == ascii_lower(c),
{
    if 'A' <= c && c <= 'Z' {
        let b = (c as u32 + 32) as u8;
        b as char
    } else {
        c
    }
}

pub fn eq_ignore_ascii_case(a: &str, b: &str) -> (r: bool)
    ensures
        r == eq_ignore_ascii_case_spec(a@, b@),
{
    let x = crate::text::chars_of(a);
    let y = crate::text::chars_of(b);
    if x.len() != y.len() {
        return false;
    }
    let mut i: usize = 0;
    while i < x.len()
        invariant
            x@ == a@,
            y@ == b@,
            x@.len() == y@.len(),
            i <= x@.len(),
            forall|j: int| 0 <= j < i ==> ascii_lower(x@[j]) == ascii_lower(y@[j]),
        decreases x@.len() - i,
    {
        if lower(x[i]) != lower(y[i]) {
            return false;
        }
        i = i + 1;
    }
    true
}

/// After a connected-mosque refresh, the settings switch to the mosque's
/// time zone when it differs (ignoring ASCII case) from the system's.
pub fn mosque_timezone_override(mosque_tz: Option<&str>, system_tz: Option<&str>) -> (r: Option<
    String,
>)
    ensures
        match (mosque_tz, system_tz) {
            (Some(m), Some(s)) => if eq_ignore_ascii_case_spec(m@, s@) {
                r is None
            } else {
                r is Some && r->0@ == m@
            },
            _ => r is None,
        },
{
    match (mosque_tz, system_tz) {
        (Some(m), Some(s)) => if eq_ignore_ascii_case(m, s) {
            None
        } else {
            Some(owned(m))
        },
        _ => None,
    }
}

// ------------------------------------------------------------ laws
/// Each choice list and its setting correspond both ways: selecting the
/// entry shown for a setting gives that setting back, and each listed entry
/// shows the setting it selects.
pub proof fn lemma_choice_lists_round_trip(
    t: ThemeMode,
    l: LocationMode,
    m: CalculationMethod,
    i: u32,
)
    ensures
        theme_for_index_spec(match t {
            ThemeMode::System => 0u32,
            ThemeMode::Light => 1u32,
            ThemeMode::Dark => 2u32,
        }) == t,
        location_mode_for_index_spec(location_mode_index_spec(l)) == l,
        method_for_index_spec(method_index_spec(m)) == m,
        i < 3 ==> location_mode_index_spec(location_mode_for_index_spec(i)) == i,
        i < 11 ==> method_index_spec(method_for_index_spec(i)) == i,
{
}

/// The message keys of the choice lists' entries, in the order the settings
/// page lists them.
pub open spec fn method_list() -> Seq<Seq<char>> {
    seq![
        "MWL"@,
        "ISNA"@,
        "Egypt"@,
        "Makkah"@,
        "Karachi"@,
        "Dubai"@,
        "MoonsightingCommittee"@,
        "Kuwait"@,
        "Qatar"@,
        "Singapore"@,
        "Turkey"@,
    ]
}

/// The message key naming each calculation method.
pub open spec fn method_name(m: CalculationMethod) -> Seq<char> {
    match m {
        CalculationMethod::MWL => "MWL"@,
        CalculationMethod::ISNA => "ISNA"@,
        CalculationMethod::Egypt => "Egypt"@,
        CalculationMethod::Makkah => "Makkah"@,
        CalculationMethod::Karachi => "Karachi"@,
        CalculationMethod::Dubai => "Dubai"@,
        CalculationMethod::MoonsightingCommittee => "MoonsightingCommittee"@,
        CalculationMethod::Kuwait => "Kuwait"@,
        CalculationMethod::Qatar => "Qatar"@,
        CalculationMethod::Singapore => "Singapore"@,
        CalculationMethod::Turkey => "Turkey"@,
    }
}

pub open spec fn theme_list() -> Seq<Seq<char>> {
    seq!["System Default"@, "Light"@, "Dark"@]
}

pub open spec fn theme_name(t: ThemeMode) -> Seq<char> {
    match t {
        ThemeMode::System => "System Default"@,
        ThemeMode::Light => "Light"@,
        ThemeMode::Dark => "Dark"@,
    }
}

pub open spec fn location_mode_list() -> Seq<Seq<char>> {
    seq!["Manual Coordinates"@, "City Selection"@, "Auto (GPS/Network)"@]
}

pub open spec fn location_mode_name(m: LocationMode) -> Seq<char> {
    match m {
        LocationMode::Manual => "Manual Coordinates"@,
        LocationMode::City => "City Selection"@,
        LocationMode::Auto => "Auto (GPS/Network)"@,
    }
}

pub open spec fn source_list() -> Seq<Seq<char>> {
    seq!["Calculated (Offline)"@, "Connected Mosque (URL)"@]
}

pub open spec fn source_name(s: PrayerTimesSource) -> Seq<char> {
    match s {
        PrayerTimesSource::Calculated => "Calculated (Offline)"@,
        PrayerTimesSource::Mawaqit => "Connected Mosque (URL)"@,
    }
}

pub open spec fn madhab_list() -> Seq<Seq<char>> {
    seq!["Shafi (Standard/Maliki/Hanbali)"@, "Hanafi"@]
}

pub open spec fn madhab_name(m: MadhabChoice) -> Seq<char> {
    match m {
        MadhabChoice::Shafi => "Shafi (Standard/Maliki/Hanbali)"@,
        MadhabChoice::Hanafi => "Hanafi"@,
    }
}

pub open spec fn timezone_mode_list() -> Seq<Seq<char>> {
    seq!["Automatic (System)"@, "Custom Timezone (IANA)"@, "Manual UTC Offset"@]
}

pub open spec fn timezone_mode_name(m: TimezoneMode) -> Seq<char> {
    match m {
        TimezoneMode::Auto => "Automatic (System)"@,
        TimezoneMode::Named(_) => "Custom Timezone (IANA)"@,
        TimezoneMode::UtcOffset(_) => "Manual UTC Offset"@,
    }
}

/// Each setting is shown as the entry of its choice list that names it, and
/// each entry selects the setting it names: the index of a setting is the
/// position of its name in the list the settings page shows, and every
/// position of the list selects the setting named there.
pub proof fn lemma_choice_indices_follow_list_order(
    m: CalculationMethod,
    t: ThemeMode,
    l: LocationMode,
    s: PrayerTimesSource,
    h: MadhabChoice,
    z: TimezoneMode,
    i: u32,
)
    ensures
        method_index_spec(m) < method_list().len(),
        method_list()[method_index_spec(m) as int] == method_name(m),
        i < method_list().len() ==> method_name(method_for_index_spec(i)) == method_list()[i as int],
        theme_index_spec(t) < theme_list().len(),
        theme_list()[theme_index_spec(t) as int] == theme_name(t),
        i < theme_list().len() ==> theme_name(theme_for_index_spec(i)) == theme_list()[i as int],
        location_mode_index_spec(l) < location_mode_list().len(),
        location_mode_list()[location_mode_index_spec(l) as int] == location_mode_name(l),
        i < location_mode_list().len() ==> location_mode_name(location_mode_for_index_spec(i))
            == location_mode_list()[i as int],
        source_index_spec(s) < source_list().len(),
        source_list()[source_index_spec(s) as int] == source_name(s),
        i < source_list().len() ==> source_name(source_for_index_spec(i)) == source_list()[i as int],
        madhab_index_spec(h) < madhab_list().len(),
        madhab_list()[madhab_index_spec(h) as int] == madhab_name(h),
        i < madhab_list().len() ==> madhab_name(madhab_for_index_spec(i)) == madhab_list()[i as int],
        timezone_mode_index_spec(z) < timezone_mode_list().len(),
        timezone_mode_list()[timezone_mode_index_spec(z) as int] == timezone_mode_name(z),
{
}

} // verus!
