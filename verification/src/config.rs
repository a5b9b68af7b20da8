//! The application settings: the choices the user makes, their defaults,
//! and the rules that update them (legacy migration on load, obfuscation of
//! private values before saving, refreshing Quran reading state, switching
//! the location method). Coordinates, the Adhan volume, Quran font metrics
//! and the cached connected-mosque timetable are floating-point data kept
//! beside these settings by the application.
use vstd::prelude::*;
use crate::text::owned;

verus! {

#[derive(Clone, Copy, Debug, PartialEq, Eq, Structural)]
pub enum LocationMode {
    Manual,
    City,
    Auto,
}

#[derive(Clone, Copy, Debug, PartialEq, Eq, Structural)]
pub enum PrayerTimesSource {
    Calculated,
    Mawaqit,
}

impl Default for PrayerTimesSource {
    fn default() -> (r: Self)
        ensures
            r == PrayerTimesSource::Calculated,
    {
        PrayerTimesSource::Calculated
    }
}

#[allow(clippy::upper_case_acronyms)]
#[derive(Clone, Copy, Debug, PartialEq, Eq, Structural)]
pub enum CalculationMethod {
    MWL,
    ISNA,
    Egypt,
    Makkah,
    Karachi,
    Dubai,
    MoonsightingCommittee,
    Kuwait,
    Qatar,
    Singapore,
    Turkey,
}

impl Default for CalculationMethod {
    fn default() -> (r: Self)
        ensures
            r == CalculationMethod::MWL,
    {
        CalculationMethod::MWL
    }
}

#[derive(Clone, Copy, Debug, PartialEq, Eq, Structural)]
pub enum MadhabChoice {
    Shafi,
    Hanafi,
}

impl Default for MadhabChoice {
    fn default() -> (r: Self)
        ensures
            r == MadhabChoice::Shafi,
    {
        MadhabChoice::Shafi
    }
}

#[derive(Clone, Copy, Debug, PartialEq, Eq, Structural)]
pub enum ThemeMode {
    System,
    Light,
    Dark,
}

impl Default for ThemeMode {
    fn default() -> (r: Self)
        ensures
            r == ThemeMode::System,
    {
        ThemeMode::System
    }
}

/// How prayer times are shifted to local time.
#[derive(Clone, Debug, PartialEq, Eq)]
pub enum TimezoneMode {
    /// The system time zone.
    Auto,
    /// A named IANA time zone.
    Named(String),
    /// A fixed offset from UTC, in minutes.
    UtcOffset(i32),
}

impl Default for TimezoneMode {
    fn default() -> (r: Self)
        ensures
            r == TimezoneMode::Auto,
    {
        TimezoneMode::Auto
    }
}

/// A saved reading position in the Quran.
#[derive(Clone, Copy, Debug, PartialEq, Eq, Structural)]
pub struct QuranBookmark {
    pub page: u32,
    pub surah: u32,
    pub verse: u32,
}

/// `default_autostart`: the application starts at login unless told otherwise.
pub fn default_autostart() -> (r: bool)
    ensures
        r,
{
    true
}

pub fn default_global_arabic_font_family() -> (r: String)
    ensures
        r@ == "Amiri, Noto Sans Arabic"@,
{
    owned("Amiri, Noto Sans Arabic")
}

pub fn default_global_ui_font_family() -> (r: String)
    ensures
        r@ == "Cantarell, sans-serif"@,
{
    owned("Cantarell, sans-serif")
}

// ------------------------------------------------------------ iqamah delays
/// Minutes between the Adhan and the Iqamah, per prayer name.
#[derive(Clone, Debug)]
pub struct IqamahMinutes {
    entries: Vec<(String, u32)>,
}

/// The map that an association list stands for (later entries win).
pub open spec fn assoc_map(es: Seq<(String, u32)>) -> Map<Seq<char>, u32>
    decreases es.len(),
{
    if es.len() == 0 {
        Map::empty()
    } else {
        assoc_map(es.drop_last()).insert(es.last().0@, es.last().1)
    }
}

pub open spec fn distinct_keys(es: Seq<(String, u32)>) -> bool {
    forall|i: int, j: int| 0 <= i < j < es.len() ==> es[i].0@ != es[j].0@
}

proof fn lemma_assoc_map_keys(es: Seq<(String, u32)>, k: Seq<char>)
    ensures
        assoc_map(es).contains_key(k) <==> exists|i: int| 0 <= i < es.len() && es[i].0@ == k,
    decreases es.len(),
{
    if es.len() > 0 {
        lemma_assoc_map_keys(es.drop_last(), k);
        if assoc_map(es.drop_last()).contains_key(k) {
            let i = choose|i: int| 0 <= i < es.drop_last().len() && es.drop_last()[i].0@ == k;
            assert(es[i].0@ == k);
        }
        if exists|i: int| 0 <= i < es.len() && es[i].0@ == k {
            let i = choose|i: int| 0 <= i < es.len() && es[i].0@ == k;
            if i < es.len() - 1 {
                assert(es.drop_last()[i].0@ == k);
            }
        }
    }
}

proof fn lemma_assoc_map_value(es: Seq<(String, u32)>, i: int)
    requires
        distinct_keys(es),
        0 <= i < es.len(),
    ensures
        assoc_map(es).contains_key(es[i].0@),
        assoc_map(es)[es[i].0@] == es[i].1,
    decreases es.len(),
{
    if i < es.len() - 1 {
        lemma_assoc_map_value(es.drop_last(), i);
        assert(es.drop_last()[i] == es[i]);
    }
}

proof fn lemma_assoc_map_update(es: Seq<(String, u32)>, i: int, e: (String, u32))
    requires
        distinct_keys(es),
        0 <= i < es.len(),
        es[i].0@ == e.0@,
    ensures
        assoc_map(es.update(i, e)) == assoc_map(es).insert(e.0@, e.1),
    decreases es.len(),
{
    let u = es.update(i, e);
    if i == es.len() - 1 {
        assert(u.drop_last() =~= es.drop_last());
        assert(assoc_map(u) =~= assoc_map(es).insert(e.0@, e.1));
    } else {
        assert(u.drop_last() =~= es.drop_last().update(i, e));
        lemma_assoc_map_update(es.drop_last(), i, e);
        assert(es.last().0@ != e.0@);
        assert(assoc_map(u) =~= assoc_map(es).insert(e.0@, e.1));
    }
}

impl View for IqamahMinutes {
    type V = Map<Seq<char>, u32>;

    closed spec fn view(&self) -> Map<Seq<char>, u32> {
        assoc_map(self.entries@)
    }
}

impl IqamahMinutes {
    pub closed spec fn wf(&self) -> bool {
        distinct_keys(self.entries@)
    }

    /// No delay configured for any prayer.
    pub fn new() -> (r: IqamahMinutes)
        ensures
            r.wf(),
            r@ == Map::<Seq<char>, u32>::empty(),
    {
        IqamahMinutes { entries: Vec::new() }
    }

    /// The delay configured for `prayer`, if any.
    pub fn get(&self, prayer: &str) -> (r: Option<u32>)
        requires
            self.wf(),
        ensures
            r == (if self@.contains_key(prayer@) {
                Some(self@[prayer@])
            } else {
                None
            }),
    {
        let key = owned(prayer);
        let mut i: usize = 0;
        while i < self.entries.len()
            invariant
                key@ == prayer@,
                distinct_keys(self.entries@),
                i <= self.entries@.len(),
                forall|j: int| 0 <= j < i ==> self.entries@[j].0@ != prayer@,
            decreases self.entries@.len() - i,
        {
            if self.entries[i].0 == key {
                proof {
                    lemma_assoc_map_value(self.entries@, i as int);
                }
                return Some(self.entries[i].1);
            }
            i = i + 1;
        }
        proof {
            lemma_assoc_map_keys(self.entries@, prayer@);
        }
        None
    }

    /// Sets the delay for `prayer`, replacing any earlier one.
    pub fn insert(&mut self, prayer: String, minutes: u32)
        requires
            old(self).wf(),
        ensures
            final(self).wf(),
            final(self)@ == old(self)@.insert(prayer@, minutes),
    {
        let mut i: usize = 0;
        while i < self.entries.len()
            invariant
                i <= self.entries@.len(),
                self.entries@ == old(self).entries@,
                distinct_keys(self.entries@),
                forall|j: int| 0 <= j < i ==> self.entries@[j].0@ != prayer@,
            decreases self.entries@.len() - i,
        {
            if self.entries[i].0 == prayer {
                proof {
                    lemma_assoc_map_update(self.entries@, i as int, (prayer, minutes));
                }
                self.entries.set(i, (prayer, minutes));
                proof {
                    assert forall|a: int, b: int|
                        0 <= a < b < self.entries@.len() implies self.entries@[a].0@
                        != self.entries@[b].0@ by {
                        assert(old(self).entries@[a].0@ != old(self).entries@[b].0@);
                    }
                }
                return;
            }
            i = i + 1;
        }
        let ghost es = self.entries@;
        self.entries.push((prayer, minutes));
        proof {
            assert(self.entries@.drop_last() =~= es);
        }
    }

    /// The number of prayers with a configured delay.
    pub fn len(&self) -> (n: usize)
        requires
            self.wf(),
        ensures
            n == self@.len(),
    {
        proof {
            lemma_assoc_len(self.entries@);
        }
        self.entries.len()
    }

    /// The prayers with a delay configured, each once.
    pub fn prayers(&self) -> (v: Vec<String>)
        requires
            self.wf(),
        ensures
            v@.len() == self@.len(),
            forall|i: int| 0 <= i < v@.len() ==> self@.contains_key(#[trigger] v@[i]@),
            forall|k: Seq<char>|
                self@.contains_key(k) ==> exists|i: int| 0 <= i < v@.len() && v@[i]@ == k,
    {
        let mut v: Vec<String> = Vec::new();
        let mut i: usize = 0;
        while i < self.entries.len()
            invariant
                i <= self.entries@.len(),
                v@.len() == i,
                forall|j: int| 0 <= j < i ==> v@[j]@ == self.entries@[j].0@,
            decreases self.entries@.len() - i,
        {
            v.push(owned(self.entries[i].0.as_str()));
            i = i + 1;
        }
        proof {
            lemma_assoc_len(self.entries@);
            assert forall|j: int| 0 <= j < v@.len() implies self@.contains_key(#[trigger] v@[j]@) by {
                lemma_assoc_map_keys(self.entries@, v@[j]@);
            }
            assert forall|k: Seq<char>| self@.contains_key(k) implies exists|j: int|
                0 <= j < v@.len() && v@[j]@ == k by {
                lemma_assoc_map_keys(self.entries@, k);
                let j = choose|j: int| 0 <= j < self.entries@.len() && self.entries@[j].0@ == k;
                assert(v@[j]@ == k);
            }
        }
        v
    }
}

proof fn lemma_assoc_len(es: Seq<(String, u32)>)
    requires
        distinct_keys(es),
    ensures
        assoc_map(es).dom().finite(),
        assoc_map(es).len() == es.len(),
    decreases es.len(),
{
    if es.len() > 0 {
        let d = es.drop_last();
        lemma_assoc_len(d);
        lemma_assoc_map_keys(d, es.last().0@);
        if assoc_map(d).contains_key(es.last().0@) {
            let i = choose|i: int| 0 <= i < d.len() && d[i].0@ == es.last().0@;
            assert(es[i].0@ == es[es.len() - 1].0@);
        }
    }
}

/// The map the default delays stand for: Fajr 20, Dhuhr 10, Asr 10,
/// Maghrib 5, Isha 10 minutes.
pub open spec fn default_iqamah_map() -> Map<Seq<char>, u32> {
    Map::empty().insert("Fajr"@, 20u32).insert("Dhuhr"@, 10u32).insert("Asr"@, 10u32).insert(
        "Maghrib"@,
        5u32,
    ).insert("Isha"@, 10u32)
}

pub fn default_iqamah_minutes() -> (m: IqamahMinutes)
    ensures
        m.wf(),
        m@ == default_iqamah_map(),
{
    let mut m = IqamahMinutes::new();
    m.insert(owned("Fajr"), 20);
    m.insert(owned("Dhuhr"), 10);
    m.insert(owned("Asr"), 10);
    m.insert(owned("Maghrib"), 5);
    m.insert(owned("Isha"), 10);
    m
}

// ------------------------------------------------------------ settings
/// The user's settings, apart from the floating-point data the application
/// keeps beside them.
#[derive(Clone, Debug)]
pub struct AppConfig {
    pub method: CalculationMethod,
    pub madhab: MadhabChoice,
    pub location_mode: LocationMode,
    pub city_name: Option<String>,
    pub adhan_sound_path: Option<String>,
    pub pre_prayer_notify: bool,
    pub pre_prayer_minutes: u32,
    pub hijri_offset: i64,
    pub favorites: Vec<String>,
    pub adkar_notification_enabled: bool,
    pub language: String,
    pub theme: ThemeMode,
    pub is_configured: bool,
    pub adhan_muted: bool,
    pub autostart: bool,
    pub enc_lat: String,
    pub enc_lon: String,
    pub quran_bookmark_surah: Option<u32>,
    pub quran_bookmark_page: Option<u32>,
    pub quran_bookmarks: Vec<QuranBookmark>,
    pub quran_last_surah: Option<u32>,
    pub quran_last_page: Option<u32>,
    pub prayer_times_source: PrayerTimesSource,
    pub mawaqit_url: Option<String>,
    pub mawaqit_auto_refresh_daily: bool,
    pub enc_mawaqit_url: String,
    pub enc_mawaqit_cache: String,
    pub timezone_override_minutes: Option<i32>,
    pub timezone_mode: TimezoneMode,
    pub global_arabic_font_family: String,
    pub global_ui_font_family: String,
    pub iqamah_minutes: IqamahMinutes,
}

impl Default for AppConfig {
    fn default() -> (c: Self)
        ensures
            c.method == CalculationMethod::MWL,
            c.madhab == MadhabChoice::Shafi,
            c.location_mode == LocationMode::Manual,
            c.city_name is None,
            c.adhan_sound_path is None,
            c.pre_prayer_notify,
            c.pre_prayer_minutes == 15,
            c.hijri_offset == 0,
            c.favorites@.len() == 0,
            c.adkar_notification_enabled,
            c.language@ == "auto"@,
            c.theme == ThemeMode::System,
            !c.is_configured,
            !c.adhan_muted,
            c.autostart,
            c.enc_lat@.len() == 0,
            c.enc_lon@.len() == 0,
            c.quran_bookmark_surah is None,
            c.quran_bookmark_page is None,
            c.quran_bookmarks@.len() == 0,
            c.quran_last_surah is None,
            c.quran_last_page is None,
            c.prayer_times_source == PrayerTimesSource::Calculated,
            c.mawaqit_url is None,
            !c.mawaqit_auto_refresh_daily,
            c.enc_mawaqit_url@.len() == 0,
            c.enc_mawaqit_cache@.len() == 0,
            c.timezone_override_minutes is None,
            c.timezone_mode == TimezoneMode::Auto,
            c.global_arabic_font_family@ == "Amiri, Noto Sans Arabic"@,
            c.global_ui_font_family@ == "Cantarell, sans-serif"@,
            c.iqamah_minutes.wf(),
            c.iqamah_minutes@ == default_iqamah_map(),
    {
        AppConfig {
            method: CalculationMethod::MWL,
            madhab: MadhabChoice::Shafi,
            location_mode: LocationMode::Manual,
            city_name: None,
            adhan_sound_path: None,
            pre_prayer_notify: true,
            pre_prayer_minutes: 15,
            hijri_offset: 0,
            favorites: Vec::new(),
            adkar_notification_enabled: true,
            language: owned("auto"),
            theme: ThemeMode::System,
            is_configured: false,
            adhan_muted: false,
            autostart: default_autostart(),
            enc_lat: String::new(),
            enc_lon: String::new(),
            quran_bookmark_surah: None,
            quran_bookmark_page: None,
            quran_bookmarks: Vec::new(),
            quran_last_surah: None,
            quran_last_page: None,
            prayer_times_source: PrayerTimesSource::Calculated,
            mawaqit_url: None,
            mawaqit_auto_refresh_daily: false,
            enc_mawaqit_url: String::new(),
            enc_mawaqit_cache: String::new(),
            timezone_override_minutes: None,
            timezone_mode: TimezoneMode::Auto,
            global_arabic_font_family: default_global_arabic_font_family(),
            global_ui_font_family: default_global_ui_font_family(),
            iqamah_minutes: default_iqamah_minutes(),
        }
    }
}

/// `n` is `c` after the legacy single bookmark is moved into the list.
pub open spec fn migrated_from(n: AppConfig, c: AppConfig) -> bool {
    let migrate = c.quran_bookmarks@.len() == 0 && c.quran_bookmark_surah is Some
        && c.quran_bookmark_page is Some;
    &&& n.quran_bookmarks@ == if migrate {
        seq![
            QuranBookmark {
                page: c.quran_bookmark_page->0,
                surah: c.quran_bookmark_surah->0,
                verse: 1,
            },
        ]
    } else {
        c.quran_bookmarks@
    }
    &&& n == AppConfig { quran_bookmarks: n.quran_bookmarks, ..c }
}

/// The settings after the decoded connected-mosque URL is put back.
pub open spec fn restored(c: AppConfig, decoded: Option<String>) -> AppConfig {
    if c.mawaqit_url is None && c.enc_mawaqit_url@.len() > 0 && decoded is Some {
        AppConfig { mawaqit_url: decoded, ..c }
    } else {
        c
    }
}

/// The settings as written to disk, given the obfuscated coordinates and URL.
pub open spec fn obfuscated(
    c: AppConfig,
    enc_lat: Option<String>,
    enc_lon: Option<String>,
    enc_url: Option<String>,
) -> AppConfig {
    let hide_url = c.mawaqit_url is Some && enc_url is Some;
    AppConfig {
        enc_lat: match enc_lat {
            Some(v) => v,
            None => c.enc_lat,
        },
        enc_lon: match enc_lon {
            Some(v) => v,
            None => c.enc_lon,
        },
        enc_mawaqit_url: if hide_url {
            enc_url->0
        } else {
            c.enc_mawaqit_url
        },
        mawaqit_url: if hide_url {
            None
        } else {
            c.mawaqit_url
        },
        ..c
    }
}

impl AppConfig {
    pub open spec fn wf(&self) -> bool {
        self.iqamah_minutes.wf()
    }

    /// Settings written before bookmarks were kept as a list carry one
    /// bookmark as a surah and a page: turn it into the first list entry
    /// (at verse 1) when the list is empty.
    pub fn migrate_legacy_bookmark(&mut self)
        ensures
            migrated_from(*final(self), *old(self)),
    {
        if self.quran_bookmarks.len() == 0 {
            match (self.quran_bookmark_surah, self.quran_bookmark_page) {
                (Some(surah), Some(page)) => {
                    self.quran_bookmarks.push(QuranBookmark { page, surah, verse: 1 });
                    assert(self.quran_bookmarks@ =~= seq![QuranBookmark { page, surah, verse: 1 }]);
                },
                _ => {},
            }
        }
    }

    /// Whether the connected-mosque URL was saved only in obfuscated form.
    pub fn mawaqit_url_needs_restore(&self) -> (r: bool)
        ensures
            r == (self.mawaqit_url is None && self.enc_mawaqit_url@.len() > 0),
    {
        self.mawaqit_url.is_none() && self.enc_mawaqit_url.unicode_len() > 0
    }

    /// Puts back the connected-mosque URL decoded from its obfuscated form
    /// (`None` when decoding failed).
    pub fn restore_mawaqit_url(&mut self, decoded: Option<String>)
        ensures
            *final(self) == restored(*old(self), decoded),
    {
        if self.mawaqit_url_needs_restore() {
            if let Some(url) = decoded {
                self.mawaqit_url = Some(url);
            }
        }
    }

    /// Before saving: store the obfuscated forms of the coordinates and of
    /// the connected-mosque URL (each `None` when obfuscation failed), and
    /// drop the URL in clear once its obfuscated form is stored.
    pub fn apply_obfuscation(
        &mut self,
        enc_lat: Option<String>,
        enc_lon: Option<String>,
        enc_url: Option<String>,
    )
        ensures
            *final(self) == obfuscated(*old(self), enc_lat, enc_lon, enc_url),
    {
        if let Some(v) = enc_lat {
            self.enc_lat = v;
        }
        if let Some(v) = enc_lon {
            self.enc_lon = v;
        }
        if self.mawaqit_url.is_some() {
            if let Some(v) = enc_url {
                self.enc_mawaqit_url = v;
                self.mawaqit_url = None;
            }
        }
    }

    /// Takes the Quran reading state (bookmarks and last position) from the
    /// settings most recently written to disk, keeping everything else.
    pub fn sync_quran_state_from(&mut self, latest: AppConfig)
        ensures
            *final(self) == (AppConfig {
                quran_bookmark_surah: latest.quran_bookmark_surah,
                quran_bookmark_page: latest.quran_bookmark_page,
                quran_bookmarks: latest.quran_bookmarks,
                quran_last_surah: latest.quran_last_surah,
                quran_last_page: latest.quran_last_page,
                ..*old(self)
            }),
    {
        self.quran_bookmark_surah = latest.quran_bookmark_surah;
        self.quran_bookmark_page = latest.quran_bookmark_page;
        self.quran_bookmarks = latest.quran_bookmarks;
        self.quran_last_surah = latest.quran_last_surah;
        self.quran_last_page = latest.quran_last_page;
    }

    /// Choosing a location method leaves the connected-mosque source (whose
    /// location comes with the mosque) for calculated times. Returns whether
    /// the source was switched.
    pub fn select_location_mode(&mut self, mode: LocationMode) -> (was_mawaqit: bool)
        ensures
            was_mawaqit == (old(self).prayer_times_source == PrayerTimesSource::Mawaqit),
            *final(self) == (AppConfig {
                location_mode: mode,
                prayer_times_source: PrayerTimesSource::Calculated,
                ..*old(self)
            }),
    {
        let was_mawaqit = self.prayer_times_source == PrayerTimesSource::Mawaqit;
        self.prayer_times_source = PrayerTimesSource::Calculated;
        self.location_mode = mode;
        was_mawaqit
    }

    /// The Iqamah delay for `prayer`, or `fallback` when none is configured.
    pub fn iqamah_minutes_or(&self, prayer: &str, fallback: u32) -> (m: u32)
        requires
            self.wf(),
        ensures
            m == if self.iqamah_minutes@.contains_key(prayer@) {
                self.iqamah_minutes@[prayer@]
            } else {
                fallback
            },
    {
        match self.iqamah_minutes.get(prayer) {
            Some(m) => m,
            None => fallback,
        }
    }

    /// Whether the daily connected-mosque refresh is switched on and has a URL.
    pub fn mawaqit_refresh_wanted(&self) -> (r: bool)
        ensures
            r == (self.prayer_times_source == PrayerTimesSource::Mawaqit
                && self.mawaqit_auto_refresh_daily && self.mawaqit_url is Some),
    {
        self.prayer_times_source == PrayerTimesSource::Mawaqit && self.mawaqit_auto_refresh_daily
            && self.mawaqit_url.is_some()
    }
}

// ------------------------------------------------------------ laws
/// A delay read back after it is set is the one set; the others are unchanged.
pub proof fn lemma_iqamah_read_after_write(m: Map<Seq<char>, u32>, prayer: Seq<char>, minutes: u32, other: Seq<char>)
    ensures
        m.insert(prayer, minutes).contains_key(prayer),
        m.insert(prayer, minutes)[prayer] == minutes,
        other != prayer ==> (m.insert(prayer, minutes).contains_key(other) == m.contains_key(other)),
        other != prayer && m.contains_key(other) ==> m.insert(prayer, minutes)[other] == m[other],
{
}

/// Saving and loading give back the connected-mosque URL: once the URL is
/// stored obfuscated (and dropped in clear), restoring it from its decoded
/// form yields the URL the settings held.
pub proof fn lemma_saved_url_is_restored(
    c: AppConfig,
    enc_lat: Option<String>,
    enc_lon: Option<String>,
    enc_url: String,
)
    requires
        c.mawaqit_url is Some,
        enc_url@.len() > 0,
    ensures
        restored(obfuscated(c, enc_lat, enc_lon, Some(enc_url)), c.mawaqit_url).mawaqit_url
            == c.mawaqit_url,
        obfuscated(c, enc_lat, enc_lon, Some(enc_url)).mawaqit_url is None,
{
}

/// Moving the legacy bookmark is done once: a second pass changes nothing.
pub proof fn lemma_bookmark_migration_is_idempotent(c0: AppConfig, c1: AppConfig, c2: AppConfig)
    requires
        migrated_from(c1, c0),
        migrated_from(c2, c1),
    ensures
        c2.quran_bookmarks@ == c1.quran_bookmarks@,
        c2 == (AppConfig { quran_bookmarks: c2.quran_bookmarks, ..c1 }),
{
}

} // verus!
