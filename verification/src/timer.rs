//! The once-a-second prayer timer, as a state machine.
//!
//! Every tick the application hands the timer the current time, today's
//! schedule and the relevant settings; the timer answers with the
//! notifications to show, whether to start the Adhan, whether to refresh the
//! connected-mosque data and the adkar lists, and what the home page shows.
//! Times are whole seconds on one clock; days are day numbers.
use vstd::prelude::*;
use crate::config::{AppConfig, PrayerTimesSource};
use crate::text::str_eq;

verus! {

/// What the home page shows after a tick.
#[derive(Clone, Debug, PartialEq, Eq)]
pub struct PrayerState {
    pub hero_text: String,
    pub hijri_text: String,
    pub location_text: String,
    pub next_prayer_name: String,
    pub adhan_playing: bool,
    pub adhan_prayer_name: Option<String>,
}

/// The six daily adkar reminders: two after Fajr, two after Asr, two after Isha.
#[derive(Clone, Copy, Debug, PartialEq, Eq, Structural)]
pub enum AdkarSlot {
    MorningFirst,
    MorningSecond,
    EveningFirst,
    EveningSecond,
    NightFirst,
    NightSecond,
}

/// Which of the day's adkar lists a reminder draws from.
#[derive(Clone, Copy, Debug, PartialEq, Eq, Structural)]
pub enum AdkarList {
    Morning,
    Evening,
    Night,
}

pub open spec fn slot_at(k: int) -> AdkarSlot {
    if k == 0 {
        AdkarSlot::MorningFirst
    } else if k == 1 {
        AdkarSlot::MorningSecond
    } else if k == 2 {
        AdkarSlot::EveningFirst
    } else if k == 3 {
        AdkarSlot::EveningSecond
    } else if k == 4 {
        AdkarSlot::NightFirst
    } else {
        AdkarSlot::NightSecond
    }
}

/// Seconds after its anchor prayer at which a reminder's one-minute window opens.
pub open spec fn slot_window_start(k: int) -> int {
    if k == 0 {
        60
    } else if k == 1 {
        1800
    } else if k == 2 {
        900
    } else if k == 3 {
        2700
    } else if k == 4 {
        1800
    } else {
        3600
    }
}

impl AdkarSlot {
    /// The list the reminder draws from and the entry of that list it shows.
    pub fn source(&self) -> (r: (AdkarList, usize))
        ensures
            r.1 < 2,
            r.0 == (match *self {
                AdkarSlot::MorningFirst | AdkarSlot::MorningSecond => AdkarList::Morning,
                AdkarSlot::EveningFirst | AdkarSlot::EveningSecond => AdkarList::Evening,
                _ => AdkarList::Night,
            }),
            r.1 == (match *self {
                AdkarSlot::MorningFirst | AdkarSlot::EveningFirst | AdkarSlot::NightFirst => 0usize,
                _ => 1usize,
            }),
    {
        match self {
            AdkarSlot::MorningFirst => (AdkarList::Morning, 0),
            AdkarSlot::MorningSecond => (AdkarList::Morning, 1),
            AdkarSlot::EveningFirst => (AdkarList::Evening, 0),
            AdkarSlot::EveningSecond => (AdkarList::Evening, 1),
            AdkarSlot::NightFirst => (AdkarList::Night, 0),
            AdkarSlot::NightSecond => (AdkarList::Night, 1),
        }
    }
}

/// The next prayer (or sunrise) and when it falls.
#[derive(Clone, Debug, PartialEq, Eq)]
pub struct UpcomingPrayer {
    pub name: String,
    pub time: i64,
}

/// Today's Fajr, Asr and Isha times, from which the adkar reminders count.
#[derive(Clone, Copy, Debug, PartialEq, Eq, Structural)]
pub struct AdkarAnchors {
    pub fajr: i64,
    pub asr: i64,
    pub isha: i64,
}

/// Everything a tick reads besides the timer's own state.
#[derive(Debug, PartialEq, Eq)]
pub struct TickInput {
    pub now: i64,
    pub today: i64,
    pub next: Option<UpcomingPrayer>,
    pub anchors: Option<AdkarAnchors>,
    pub adhan_playing: bool,
    pub pre_prayer_notify: bool,
    pub pre_prayer_minutes: u32,
    pub adhan_only_mode: bool,
    pub iqamah_notify: bool,
    pub adkar_notification_enabled: bool,
    pub adhan_muted: bool,
    /// Iqamah delay, in minutes, configured for the next prayer.
    pub iqamah_minutes: u32,
    /// Connected-mosque source with daily refresh and a URL set.
    pub mawaqit_refresh_wanted: bool,
    /// The cached mosque data was fetched today.
    pub mawaqit_fetched_today: bool,
}

/// The tick input for the current settings: the Iqamah delay is the one
/// configured for the next prayer, 10 minutes when none is.
pub fn tick_input(
    config: &AppConfig,
    now: i64,
    today: i64,
    next: Option<UpcomingPrayer>,
    anchors: Option<AdkarAnchors>,
    adhan_playing: bool,
    adhan_only_mode: bool,
    iqamah_notify: bool,
    mawaqit_fetched_today: bool,
) -> (i: TickInput)
    requires
        config.wf(),
    ensures
        i.now == now,
        i.today == today,
        i.next == next,
        i.anchors == anchors,
        i.adhan_playing == adhan_playing,
        i.pre_prayer_notify == config.pre_prayer_notify,
        i.pre_prayer_minutes == config.pre_prayer_minutes,
        i.adhan_only_mode == adhan_only_mode,
        i.iqamah_notify == iqamah_notify,
        i.adkar_notification_enabled == config.adkar_notification_enabled,
        i.adhan_muted == config.adhan_muted,
        i.iqamah_minutes == match next {
            Some(up) => if config.iqamah_minutes@.contains_key(up.name@) {
                config.iqamah_minutes@[up.name@]
            } else {
                10
            },
            None => 10,
        },
        i.mawaqit_refresh_wanted == (config.prayer_times_source == PrayerTimesSource::Mawaqit
            && config.mawaqit_auto_refresh_daily && config.mawaqit_url is Some),
        i.mawaqit_fetched_today == mawaqit_fetched_today,
{
    let iqamah_minutes = match &next {
        Some(up) => config.iqamah_minutes_or(up.name.as_str(), 10),
        None => 10,
    };
    TickInput {
        now,
        today,
        next,
        anchors,
        adhan_playing,
        pre_prayer_notify: config.pre_prayer_notify,
        pre_prayer_minutes: config.pre_prayer_minutes,
        adhan_only_mode,
        iqamah_notify,
        adkar_notification_enabled: config.adkar_notification_enabled,
        adhan_muted: config.adhan_muted,
        iqamah_minutes,
        mawaqit_refresh_wanted: config.mawaqit_refresh_wanted(),
        mawaqit_fetched_today,
    }
}

/// The Iqamah countdown after an Adhan: which prayer, and when it ends.
#[derive(Debug, PartialEq, Eq)]
pub struct IqamahWindow {
    pub prayer: String,
    pub ends_at: i128,
}

/// What the timer remembers between ticks.
#[derive(Debug, PartialEq, Eq)]
pub struct TimerState {
    /// Only the first timer started shows notifications and plays the Adhan.
    pub is_core_timer: bool,
    pub last_notified_prayer: Option<String>,
    pub last_pre_notified: Option<String>,
    pub current_adhan_prayer: Option<String>,
    pub iqamah: Option<IqamahWindow>,
    pub iqamah_notified: Option<String>,
    pub adkar_lists_day: i64,
    /// For each adkar slot, the day it was last shown.
    pub adkar_sent: Vec<Option<i64>>,
    pub last_mawaqit_attempt_day: Option<i64>,
}

/// A notification to show.
#[derive(Clone, Debug, PartialEq, Eq)]
pub enum Notice {
    PrePrayer(String),
    PrayerTime { prayer: String, is_prayer: bool },
    Adkar(AdkarSlot),
    Iqamah(String),
}

/// The large line of the home page.
#[derive(Clone, Debug, PartialEq, Eq)]
pub enum Hero {
    /// "<prayer> in hh:mm:ss"
    Countdown { prayer: String, hours: u128, minutes: u128, seconds: u128 },
    /// "It's time for <prayer>"
    TimeFor { prayer: String },
    /// "Iqamah <prayer> mm:ss"
    Iqamah { prayer: String, minutes: u128, seconds: u128 },
}

/// The home page's content apart from the hijri date and location.
#[derive(Debug, PartialEq, Eq)]
pub struct TimerDisplay {
    pub hero: Hero,
    pub next_prayer_name: String,
    pub adhan_playing: bool,
    pub adhan_prayer_name: Option<String>,
}

/// What a tick asks the application to do.
#[derive(Debug, PartialEq, Eq)]
pub struct TickOutput {
    pub fetch_mawaqit: bool,
    pub refresh_adkar_lists: bool,
    pub notices: Vec<Notice>,
    /// Start the Adhan for this prayer.
    pub play_adhan: Option<String>,
    pub display: Option<TimerDisplay>,
}

// ---------------------------------------------------------------- views
pub struct TimerStateView {
    pub is_core_timer: bool,
    pub last_notified_prayer: Option<Seq<char>>,
    pub last_pre_notified: Option<Seq<char>>,
    pub current_adhan_prayer: Option<Seq<char>>,
    pub iqamah: Option<IqamahView>,
    pub iqamah_notified: Option<Seq<char>>,
    pub adkar_lists_day: int,
    pub adkar_sent: Seq<Option<i64>>,
    pub last_mawaqit_attempt_day: Option<int>,
}

pub struct IqamahView {
    pub prayer: Seq<char>,
    pub ends_at: int,
}

pub enum NoticeView {
    PrePrayer(Seq<char>),
    PrayerTime(Seq<char>, bool),
    Adkar(AdkarSlot),
    Iqamah(Seq<char>),
}

pub enum HeroView {
    Countdown(Seq<char>, int, int, int),
    TimeFor(Seq<char>),
    Iqamah(Seq<char>, int, int),
}

pub struct DisplayView {
    pub hero: HeroView,
    pub next_prayer_name: Seq<char>,
    pub adhan_playing: bool,
    pub adhan_prayer_name: Option<Seq<char>>,
}

pub struct TickOutputView {
    pub fetch_mawaqit: bool,
    pub refresh_adkar_lists: bool,
    pub notices: Seq<NoticeView>,
    pub play_adhan: Option<Seq<char>>,
    pub display: Option<DisplayView>,
}

pub open spec fn opt_view(o: Option<String>) -> Option<Seq<char>> {
    match o {
        Some(s) => Some(s@),
        None => None,
    }
}

impl View for TimerState {
    type V = TimerStateView;

    open spec fn view(&self) -> TimerStateView {
        TimerStateView {
            is_core_timer: self.is_core_timer,
            last_notified_prayer: opt_view(self.last_notified_prayer),
            last_pre_notified: opt_view(self.last_pre_notified),
            current_adhan_prayer: opt_view(self.current_adhan_prayer),
            iqamah: match self.iqamah {
                Some(w) => Some(IqamahView { prayer: w.prayer@, ends_at: w.ends_at as int }),
                None => None,
            },
            iqamah_notified: opt_view(self.iqamah_notified),
            adkar_lists_day: self.adkar_lists_day as int,
            adkar_sent: self.adkar_sent@,
            last_mawaqit_attempt_day: match self.last_mawaqit_attempt_day {
                Some(d) => Some(d as int),
                None => None,
            },
        }
    }
}

impl View for Notice {
    type V = NoticeView;

    open spec fn view(&self) -> NoticeView {
        match self {
            Notice::PrePrayer(p) => NoticeView::PrePrayer(p@),
            Notice::PrayerTime { prayer, is_prayer } => NoticeView::PrayerTime(prayer@, *is_prayer),
            Notice::Adkar(k) => NoticeView::Adkar(*k),
            Notice::Iqamah(p) => NoticeView::Iqamah(p@),
        }
    }
}

impl View for Hero {
    type V = HeroView;

    open spec fn view(&self) -> HeroView {
        match self {
            Hero::Countdown { prayer, hours, minutes, seconds } => HeroView::Countdown(
                prayer@,
                *hours as int,
                *minutes as int,
                *seconds as int,
            ),
            Hero::TimeFor { prayer } => HeroView::TimeFor(prayer@),
            Hero::Iqamah { prayer, minutes, seconds } => HeroView::Iqamah(
                prayer@,
                *minutes as int,
                *seconds as int,
            ),
        }
    }
}

impl View for TimerDisplay {
    type V = DisplayView;

    open spec fn view(&self) -> DisplayView {
        DisplayView {
            hero: self.hero@,
            next_prayer_name: self.next_prayer_name@,
            adhan_playing: self.adhan_playing,
            adhan_prayer_name: opt_view(self.adhan_prayer_name),
        }
    }
}

impl View for TickOutput {
    type V = TickOutputView;

    open spec fn view(&self) -> TickOutputView {
        TickOutputView {
            fetch_mawaqit: self.fetch_mawaqit,
            refresh_adkar_lists: self.refresh_adkar_lists,
            notices: self.notices@.map_values(|n: Notice| n@),
            play_adhan: opt_view(self.play_adhan),
            display: match self.display {
                Some(d) => Some(d@),
                None => None,
            },
        }
    }
}

impl TimerState {
    pub open spec fn wf(&self) -> bool {
        &&& self.adkar_sent@.len() == 6
        &&& self.iqamah matches Some(w) ==> i64::MIN <= w.ends_at <= i64::MAX + 60 * u32::MAX
    }

    /// A fresh timer. The adkar lists are marked as drawn on `lists_day`
    /// (the day before the first tick, so that the first tick draws them).
    pub fn new(is_core_timer: bool, lists_day: i64) -> (s: TimerState)
        ensures
            s.wf(),
            s@ == fresh_state(is_core_timer, lists_day),
    {
        let mut sent: Vec<Option<i64>> = Vec::new();
        let mut k: usize = 0;
        while k < 6
            invariant
                k <= 6,
                sent@ == Seq::new(k as nat, |j: int| None::<i64>),
            decreases 6 - k,
        {
            sent.push(None);
            assert(sent@ =~= Seq::new((k + 1) as nat, |j: int| None::<i64>));
            k = k + 1;
        }
        TimerState {
            is_core_timer,
            last_notified_prayer: None,
            last_pre_notified: None,
            current_adhan_prayer: None,
            iqamah: None,
            iqamah_notified: None,
            adkar_lists_day: lists_day,
            adkar_sent: sent,
            last_mawaqit_attempt_day: None,
        }
    }
}

pub open spec fn fresh_state(is_core_timer: bool, lists_day: i64) -> TimerStateView {
    TimerStateView {
        is_core_timer,
        last_notified_prayer: None,
        last_pre_notified: None,
        current_adhan_prayer: None,
        iqamah: None,
        iqamah_notified: None,
        adkar_lists_day: lists_day as int,
        adkar_sent: Seq::new(6, |j: int| None::<i64>),
        last_mawaqit_attempt_day: None,
    }
}

// ---------------------------------------------------------------- the rules
pub open spec fn is_sunrise(name: Seq<char>) -> bool {
    name == "Sunrise"@
}

/// The daily connected-mosque refresh is attempted at most once a day.
pub open spec fn mawaqit_fetch_due(s: TimerStateView, i: TickInput) -> bool {
    i.mawaqit_refresh_wanted && !i.mawaqit_fetched_today && s.last_mawaqit_attempt_day != Some(
        i.today as int,
    )
}

/// The pre-prayer alert: within the configured lead time, not for sunrise,
/// once per prayer.
pub open spec fn pre_prayer_due(s: TimerStateView, i: TickInput, name: Seq<char>, total: int) -> bool {
    &&& s.is_core_timer
    &&& i.pre_prayer_notify
    &&& !i.adhan_only_mode
    &&& total > 0
    &&& total <= i.pre_prayer_minutes * 60
    &&& !is_sunrise(name)
    &&& s.last_pre_notified != Some(name)
}

/// The prayer-time notification: during the first minute, once per prayer.
pub open spec fn prayer_due(s: TimerStateView, name: Seq<char>, total: int) -> bool {
    &&& s.is_core_timer
    &&& total <= 0
    &&& total > -60
    &&& s.last_notified_prayer != Some(name)
}

pub open spec fn adkar_active(s: TimerStateView, i: TickInput) -> bool {
    s.is_core_timer && i.adkar_notification_enabled && !i.adhan_only_mode
}

pub open spec fn slot_anchor(a: AdkarAnchors, k: int) -> int {
    if k <= 1 {
        a.fajr as int
    } else if k <= 3 {
        a.asr as int
    } else {
        a.isha as int
    }
}

/// Adkar reminder `k` is shown: inside its one-minute window, not yet shown today.
pub open spec fn adkar_fires(s: TimerStateView, i: TickInput, k: int) -> bool {
    &&& adkar_active(s, i)
    &&& i.anchors is Some
    &&& slot_window_start(k) <= i.now - slot_anchor(i.anchors->0, k) < slot_window_start(k) + 60
    &&& s.adkar_sent[k] != Some(i.today)
}

/// The reminders shown, in slot order, among the first `k` slots.
pub open spec fn fired_slots(s: TimerStateView, i: TickInput, k: int) -> Seq<AdkarSlot>
    decreases k,
{
    if k <= 0 {
        Seq::empty()
    } else if adkar_fires(s, i, k - 1) {
        fired_slots(s, i, k - 1).push(slot_at(k - 1))
    } else {
        fired_slots(s, i, k - 1)
    }
}

/// The timer state after the connected-mosque check and the Adhan tracking.
pub open spec fn after_prelude(s: TimerStateView, i: TickInput) -> TimerStateView {
    let s1 = if mawaqit_fetch_due(s, i) {
        TimerStateView { last_mawaqit_attempt_day: Some(i.today as int), ..s }
    } else {
        s
    };
    if !i.adhan_playing {
        TimerStateView { current_adhan_prayer: None, ..s1 }
    } else {
        s1
    }
}

/// After the pre-prayer alert and the prayer-time notification.
pub open spec fn after_notifications(
    s: TimerStateView,
    i: TickInput,
    name: Seq<char>,
    time: int,
) -> TimerStateView {
    let total = time - i.now;
    let s3 = if pre_prayer_due(s, i, name, total) {
        TimerStateView { last_pre_notified: Some(name), ..s }
    } else {
        s
    };
    if prayer_due(s3, name, total) {
        let sunrise = is_sunrise(name);
        TimerStateView {
            last_notified_prayer: Some(name),
            last_pre_notified: None,
            current_adhan_prayer: if !sunrise && !i.adhan_muted {
                Some(name)
            } else {
                s3.current_adhan_prayer
            },
            iqamah: if !sunrise {
                Some(IqamahView { prayer: name, ends_at: time + 60 * i.iqamah_minutes })
            } else {
                s3.iqamah
            },
            iqamah_notified: if !sunrise {
                None
            } else {
                s3.iqamah_notified
            },
            ..s3
        }
    } else {
        s3
    }
}

/// After the adkar reminders.
pub open spec fn after_adkar(s: TimerStateView, i: TickInput) -> TimerStateView {
    let s5 = if adkar_active(s, i) && s.adkar_lists_day != i.today {
        TimerStateView { adkar_lists_day: i.today as int, ..s }
    } else {
        s
    };
    TimerStateView {
        adkar_sent: Seq::new(
            6,
            |k: int|
                if adkar_fires(s5, i, k) {
                    Some(i.today)
                } else {
                    s5.adkar_sent[k]
                },
        ),
        ..s5
    }
}

/// After clearing a prayer that lies more than 1000 s in the past.
pub open spec fn after_reset(s: TimerStateView, total: int) -> TimerStateView {
    if total < -1000 {
        TimerStateView { last_notified_prayer: None, iqamah: None, ..s }
    } else {
        s
    }
}

/// The Iqamah notification: during the first minute after the countdown ends, once.
pub open spec fn iqamah_due(s: TimerStateView, i: TickInput) -> bool {
    &&& s.is_core_timer
    &&& s.iqamah is Some
    &&& s.iqamah.unwrap().ends_at - i.now <= 0
    &&& s.iqamah.unwrap().ends_at - i.now > -60
    &&& s.iqamah_notified != Some(s.iqamah.unwrap().prayer)
    &&& i.iqamah_notify
    &&& !i.adhan_only_mode
}

pub open spec fn hero_for(s: TimerStateView, i: TickInput, name: Seq<char>, total: int) -> HeroView {
    if s.iqamah is Some && s.iqamah.unwrap().ends_at - i.now > 0 {
        let rem = s.iqamah.unwrap().ends_at - i.now;
        HeroView::Iqamah(s.iqamah.unwrap().prayer, rem / 60, rem % 60)
    } else if total > 0 {
        HeroView::Countdown(name, total / 3600, (total / 60) % 60, total % 60)
    } else {
        HeroView::TimeFor(name)
    }
}

pub open spec fn opt_notice(b: bool, n: NoticeView) -> Seq<NoticeView> {
    if b {
        seq![n]
    } else {
        Seq::empty()
    }
}

/// One tick of the timer: the next state and what to do.
pub open spec fn tick_spec(s: TimerStateView, i: TickInput) -> (TimerStateView, TickOutputView) {
    let s2 = after_prelude(s, i);
    let fetch = mawaqit_fetch_due(s, i);
    match i.next {
        None => (
            s2,
            TickOutputView {
                fetch_mawaqit: fetch,
                refresh_adkar_lists: false,
                notices: Seq::empty(),
                play_adhan: None,
                display: None,
            },
        ),
        Some(up) => {
            let name = up.name@;
            let time = up.time as int;
            let total = time - i.now;
            let pre = pre_prayer_due(s2, i, name, total);
            let s3 = if pre {
                TimerStateView { last_pre_notified: Some(name), ..s2 }
            } else {
                s2
            };
            let pray = prayer_due(s3, name, total);
            let play = pray && !is_sunrise(name) && !i.adhan_muted;
            let s4 = after_notifications(s2, i, name, time);
            let refresh = adkar_active(s4, i) && s4.adkar_lists_day != i.today;
            let s5 = if refresh {
                TimerStateView { adkar_lists_day: i.today as int, ..s4 }
            } else {
                s4
            };
            let fired = fired_slots(s5, i, 6);
            let s6 = after_adkar(s4, i);
            let s7 = after_reset(s6, total);
            let iq = iqamah_due(s7, i);
            let s8 = if iq {
                TimerStateView { iqamah_notified: Some(s7.iqamah.unwrap().prayer), ..s7 }
            } else {
                s7
            };
            let notices = opt_notice(pre, NoticeView::PrePrayer(name)) + opt_notice(
                pray,
                NoticeView::PrayerTime(name, !is_sunrise(name)),
            ) + fired.map_values(|k: AdkarSlot| NoticeView::Adkar(k)) + opt_notice(
                iq,
                NoticeView::Iqamah(s7.iqamah.unwrap().prayer),
            );
            (
                s8,
                TickOutputView {
                    fetch_mawaqit: fetch,
                    refresh_adkar_lists: refresh,
                    notices,
                    play_adhan: if play {
                        Some(name)
                    } else {
                        None
                    },
                    display: Some(
                        DisplayView {
                            hero: hero_for(s7, i, name, total),
                            next_prayer_name: name,
                            adhan_playing: i.adhan_playing,
                            adhan_prayer_name: s8.current_adhan_prayer,
                        },
                    ),
                },
            )
        },
    }
}

// ---------------------------------------------------------------- the tick
fn opt_is(o: &Option<String>, s: &String) -> (r: bool)
    ensures
        r == (opt_view(*o) == Some(s@)),
{
    match o {
        Some(x) => *x == *s,
        None => false,
    }
}

fn clone_string(s: &String) -> (r: String)
    ensures
        r@ == s@,
{
    s.clone()
}

fn day_is(o: &Option<i64>, d: i64) -> (r: bool)
    ensures
        r == (*o == Some(d)),
{
    match o {
        Some(x) => *x == d,
        None => false,
    }
}

fn is_sunrise_name(s: &String) -> (r: bool)
    ensures
        r == is_sunrise(s@),
{
    str_eq(s.as_str(), "Sunrise")
}

fn slot_of(k: usize) -> (r: AdkarSlot)
    requires
        k < 6,
    ensures
        r == slot_at(k as int),
{
    if k == 0 {
        AdkarSlot::MorningFirst
    } else if k == 1 {
        AdkarSlot::MorningSecond
    } else if k == 2 {
        AdkarSlot::EveningFirst
    } else if k == 3 {
        AdkarSlot::EveningSecond
    } else if k == 4 {
        AdkarSlot::NightFirst
    } else {
        AdkarSlot::NightSecond
    }
}

fn window_start(k: usize) -> (r: i128)
    requires
        k < 6,
    ensures
        r == slot_window_start(k as int),
{
    if k == 0 {
        60
    } else if k == 1 {
        1800
    } else if k == 2 {
        900
    } else if k == 3 {
        2700
    } else if k == 4 {
        1800
    } else {
        3600
    }
}

fn anchor_of(a: &AdkarAnchors, k: usize) -> (r: i64)
    ensures
        r == slot_anchor(*a, k as int),
{
    if k <= 1 {
        a.fajr
    } else if k <= 3 {
        a.asr
    } else {
        a.isha
    }
}

fn prelude_step(state: &mut TimerState, input: &TickInput) -> (fetch: bool)
    requires
        old(state).wf(),
    ensures
        final(state).wf(),
        final(state)@ == after_prelude(old(state)@, *input),
        fetch == mawaqit_fetch_due(old(state)@, *input),
{
    let fetch = input.mawaqit_refresh_wanted && !input.mawaqit_fetched_today && !day_is(
        &state.last_mawaqit_attempt_day,
        input.today,
    );
    if fetch {
        state.last_mawaqit_attempt_day = Some(input.today);
    }
    if !input.adhan_playing {
        state.current_adhan_prayer = None;
    }
    fetch
}

fn notification_step(
    state: &mut TimerState,
    input: &TickInput,
    name: &String,
    time: i64,
    notices: &mut Vec<Notice>,
) -> (play: bool)
    requires
        old(state).wf(),
    ensures
        final(state).wf(),
        final(state)@ == after_notifications(old(state)@, *input, name@, time as int),
        ({
            let total = time - input.now;
            let pre = pre_prayer_due(old(state)@, *input, name@, total);
            let s3 = if pre {
                TimerStateView { last_pre_notified: Some(name@), ..old(state)@ }
            } else {
                old(state)@
            };
            let pray = prayer_due(s3, name@, total);
            &&& play == (pray && !is_sunrise(name@) && !input.adhan_muted)
            &&& final(notices)@.map_values(|n: Notice| n@) == old(notices)@.map_values(
                |n: Notice| n@,
            ) + opt_notice(pre, NoticeView::PrePrayer(name@)) + opt_notice(
                pray,
                NoticeView::PrayerTime(name@, !is_sunrise(name@)),
            )
        }),
{
    let ghost s0 = state@;
    let ghost n0 = notices@.map_values(|n: Notice| n@);
    let total: i128 = time as i128 - input.now as i128;
    let sunrise = is_sunrise_name(name);
    let pre = state.is_core_timer && input.pre_prayer_notify && !input.adhan_only_mode && total
        > 0 && total <= (input.pre_prayer_minutes as i128) * 60 && !sunrise && !opt_is(
        &state.last_pre_notified,
        name,
    );
    if pre {
        notices.push(Notice::PrePrayer(clone_string(name)));
        state.last_pre_notified = Some(clone_string(name));
    }
    let ghost n1 = notices@.map_values(|n: Notice| n@);
    assert(n1 =~= n0 + opt_notice(pre, NoticeView::PrePrayer(name@)));
    let pray = state.is_core_timer && total <= 0 && total > -60 && !opt_is(
        &state.last_notified_prayer,
        name,
    );
    let mut play = false;
    if pray {
        notices.push(Notice::PrayerTime { prayer: clone_string(name), is_prayer: !sunrise });
        if !sunrise {
            if !input.adhan_muted {
                state.current_adhan_prayer = Some(clone_string(name));
                play = true;
            }
            let ends_at: i128 = time as i128 + (input.iqamah_minutes as i128) * 60;
            state.iqamah = Some(IqamahWindow { prayer: clone_string(name), ends_at });
            state.iqamah_notified = None;
        }
        state.last_notified_prayer = Some(clone_string(name));
        state.last_pre_notified = None;
    }
    let ghost n2 = notices@.map_values(|n: Notice| n@);
    assert(n2 =~= n1 + opt_notice(pray, NoticeView::PrayerTime(name@, !is_sunrise(name@))));
    play
}

fn adkar_step(state: &mut TimerState, input: &TickInput, notices: &mut Vec<Notice>) -> (refresh:
    bool)
    requires
        old(state).wf(),
    ensures
        final(state).wf(),
        final(state)@ == after_adkar(old(state)@, *input),
        refresh == (adkar_active(old(state)@, *input) && old(state)@.adkar_lists_day
            != input.today),
        ({
            let s5 = if refresh {
                TimerStateView { adkar_lists_day: input.today as int, ..old(state)@ }
            } else {
                old(state)@
            };
            final(notices)@.map_values(|n: Notice| n@) == old(notices)@.map_values(|n: Notice| n@)
                + fired_slots(s5, *input, 6).map_values(|k: AdkarSlot| NoticeView::Adkar(k))
        }),
{
    let ghost n0 = notices@.map_values(|n: Notice| n@);
    let active = state.is_core_timer && input.adkar_notification_enabled && !input.adhan_only_mode;
    let refresh = active && state.adkar_lists_day != input.today;
    if refresh {
        state.adkar_lists_day = input.today;
    }
    let ghost s5 = state@;
    let mut k: usize = 0;
    assert(state.adkar_sent@ =~= Seq::new(
        6,
        |j: int|
            if j < 0 && adkar_fires(s5, *input, j) {
                Some(input.today)
            } else {
                s5.adkar_sent[j]
            },
    ));
    while k < 6
        invariant
            k <= 6,
            state.adkar_sent@.len() == 6,
            active == adkar_active(s5, *input),
            state@ == (TimerStateView {
                adkar_sent: Seq::new(
                    6,
                    |j: int|
                        if j < k && adkar_fires(s5, *input, j) {
                            Some(input.today)
                        } else {
                            s5.adkar_sent[j]
                        },
                ),
                ..s5
            }),
            notices@.map_values(|n: Notice| n@) == n0 + fired_slots(s5, *input, k as int).map_values(
                |k: AdkarSlot| NoticeView::Adkar(k),
            ),
        decreases 6 - k,
    {
        let fires = active && match &input.anchors {
            Some(a) => {
                let elapsed: i128 = input.now as i128 - anchor_of(a, k) as i128;
                let lo = window_start(k);
                lo <= elapsed && elapsed < lo + 60 && !day_is(&state.adkar_sent[k], input.today)
            },
            None => false,
        };
        assert(state.adkar_sent@[k as int] == s5.adkar_sent[k as int]);
        assert(fires == adkar_fires(s5, *input, k as int));
        let ghost before = notices@.map_values(|n: Notice| n@);
        if fires {
            state.adkar_sent.set(k, Some(input.today));
            notices.push(Notice::Adkar(slot_of(k)));
        }
        proof {
            let f = |kk: AdkarSlot| NoticeView::Adkar(kk);
            assert(fired_slots(s5, *input, k + 1) == if fires {
                fired_slots(s5, *input, k as int).push(slot_at(k as int))
            } else {
                fired_slots(s5, *input, k as int)
            });
            if fires {
                assert(fired_slots(s5, *input, k as int).push(slot_at(k as int)).map_values(f)
                    =~= fired_slots(s5, *input, k as int).map_values(f).push(
                    NoticeView::Adkar(slot_at(k as int)),
                ));
                assert(notices@.map_values(|n: Notice| n@) =~= before.push(
                    NoticeView::Adkar(slot_at(k as int)),
                ));
            } else {
                assert(notices@.map_values(|n: Notice| n@) =~= before);
            }
            assert(state.adkar_sent@ =~= Seq::new(
                6,
                |j: int|
                    if j < k + 1 && adkar_fires(s5, *input, j) {
                        Some(input.today)
                    } else {
                        s5.adkar_sent[j]
                    },
            ));
        }
        k = k + 1;
    }
    proof {
        assert(state.adkar_sent@ =~= after_adkar(old(state)@, *input).adkar_sent);
    }
    refresh
}

fn reset_step(state: &mut TimerState, total: i128)
    requires
        old(state).wf(),
    ensures
        final(state).wf(),
        final(state)@ == after_reset(old(state)@, total as int),
{
    if total < -1000 {
        state.last_notified_prayer = None;
        state.iqamah = None;
    }
}

fn iqamah_step(state: &mut TimerState, input: &TickInput, notices: &mut Vec<Notice>)
    requires
        old(state).wf(),
    ensures
        final(state).wf(),
        ({
            let iq = iqamah_due(old(state)@, *input);
            &&& final(state)@ == if iq {
                TimerStateView { iqamah_notified: Some(old(state)@.iqamah.unwrap().prayer), ..old(state)@ }
            } else {
                old(state)@
            }
            &&& final(notices)@.map_values(|n: Notice| n@) == old(notices)@.map_values(
                |n: Notice| n@,
            ) + opt_notice(iq, NoticeView::Iqamah(old(state)@.iqamah.unwrap().prayer))
        }),
{
    let ghost n0 = notices@.map_values(|n: Notice| n@);
    let mut name: Option<String> = None;
    if state.is_core_timer && input.iqamah_notify && !input.adhan_only_mode {
        match &state.iqamah {
            Some(w) => {
                let remaining: i128 = w.ends_at - input.now as i128;
                if remaining <= 0 && remaining > -60 && !opt_is(&state.iqamah_notified, &w.prayer) {
                    name = Some(clone_string(&w.prayer));
                }
            },
            None => {},
        }
    }
    match name {
        Some(n) => {
            notices.push(Notice::Iqamah(clone_string(&n)));
            state.iqamah_notified = Some(n);
            assert(notices@.map_values(|n: Notice| n@) =~= n0 + opt_notice(
                true,
                NoticeView::Iqamah(old(state)@.iqamah.unwrap().prayer),
            ));
        },
        None => {
            assert(notices@.map_values(|n: Notice| n@) =~= n0);
        },
    }
}

fn hero_step(state: &TimerState, input: &TickInput, name: &String, total: i128) -> (h: Hero)
    requires
        state.wf(),
    ensures
        h@ == hero_for(state@, *input, name@, total as int),
{
    match &state.iqamah {
        Some(w) => {
            let remaining: i128 = w.ends_at - input.now as i128;
            if remaining > 0 {
                let r = remaining as u128;
                return Hero::Iqamah { prayer: clone_string(&w.prayer), minutes: r / 60, seconds: r % 60 };
            }
        },
        None => {},
    }
    if total > 0 {
        let t = total as u128;
        Hero::Countdown {
            prayer: clone_string(name),
            hours: t / 3600,
            minutes: (t / 60) % 60,
            seconds: t % 60,
        }
    } else {
        Hero::TimeFor { prayer: clone_string(name) }
    }
}

/// Runs one tick: updates the timer state and says what to do.
pub fn tick(state: &mut TimerState, input: &TickInput) -> (out: TickOutput)
    requires
        old(state).wf(),
    ensures
        final(state).wf(),
        (final(state)@, out@) == tick_spec(old(state)@, *input),
{
    let ghost s0 = state@;
    let fetch = prelude_step(state, input);
    let mut notices: Vec<Notice> = Vec::new();
    match &input.next {
        None => {
            let out = TickOutput {
                fetch_mawaqit: fetch,
                refresh_adkar_lists: false,
                notices,
                play_adhan: None,
                display: None,
            };
            assert(out@.notices =~= Seq::<NoticeView>::empty());
            out
        },
        Some(up) => {
            let ghost s2 = state@;
            let total: i128 = up.time as i128 - input.now as i128;
            let play = notification_step(state, input, &up.name, up.time, &mut notices);
            let ghost n1 = notices@.map_values(|n: Notice| n@);
            let refresh = adkar_step(state, input, &mut notices);
            let ghost n2 = notices@.map_values(|n: Notice| n@);
            reset_step(state, total);
            let ghost s7 = state@;
            let hero = hero_step(state, input, &up.name, total);
            iqamah_step(state, input, &mut notices);
            let display = TimerDisplay {
                hero,
                next_prayer_name: clone_string(&up.name),
                adhan_playing: input.adhan_playing,
                adhan_prayer_name: match &state.current_adhan_prayer {
                    Some(p) => Some(clone_string(p)),
                    None => None,
                },
            };
            let out = TickOutput {
                fetch_mawaqit: fetch,
                refresh_adkar_lists: refresh,
                notices,
                play_adhan: if play {
                    Some(clone_string(&up.name))
                } else {
                    None
                },
                display: Some(display),
            };
            proof {
                let (es, eo) = tick_spec(s0, *input);
                assert(out@.notices =~= eo.notices);
                assert(out@.display == eo.display);
            }
            out
        },
    }
}

// ---------------------------------------------------------------- laws
/// Repeating a tick with the same inputs asks for nothing new: every
/// notification, the Adhan, the connected-mosque refresh and the adkar list
/// refresh each happen at most once for a given moment.
pub proof fn lemma_repeated_tick_is_quiet(s: TimerStateView, i: TickInput)
    requires
        s.adkar_sent.len() == 6,
    ensures
        ({
            let (s1, o1) = tick_spec(s, i);
            let (s2, o2) = tick_spec(s1, i);
            &&& o2.notices.len() == 0
            &&& o2.play_adhan is None
            &&& !o2.fetch_mawaqit
            &&& !o2.refresh_adkar_lists
        }),
{
    let (s1, o1) = tick_spec(s, i);
    let (s2, o2) = tick_spec(s1, i);
    match i.next {
        None => {},
        Some(up) => {
            let name = up.name@;
            let time = up.time as int;
            let total = time - i.now;
            // first tick
            let a2 = after_prelude(s, i);
            let a4 = after_notifications(a2, i, name, time);
            let a6 = after_adkar(a4, i);
            let a7 = after_reset(a6, total);
            // second tick
            let b2 = after_prelude(s1, i);
            let b3 = if pre_prayer_due(b2, i, name, total) {
                TimerStateView { last_pre_notified: Some(name), ..b2 }
            } else {
                b2
            };
            assert(!pre_prayer_due(b2, i, name, total));
            assert(!prayer_due(b3, name, total));
            let b4 = after_notifications(b2, i, name, time);
            let refresh = adkar_active(b4, i) && b4.adkar_lists_day != i.today;
            let b5 = if refresh {
                TimerStateView { adkar_lists_day: i.today as int, ..b4 }
            } else {
                b4
            };
            assert(!refresh);
            assert forall|k: int| 0 <= k < 6 implies !adkar_fires(b5, i, k) by {}
            assert forall|k: int| 0 <= k <= 6 implies fired_slots(b5, i, k).len() == 0 by {
                lemma_no_fired_slots(b5, i, k);
            }
            let b7 = after_reset(after_adkar(b4, i), total);
            assert(b7.iqamah == a7.iqamah);
            assert(!iqamah_due(b7, i));
        },
    }
}

proof fn lemma_no_fired_slots(s: TimerStateView, i: TickInput, k: int)
    requires
        0 <= k <= 6,
        forall|j: int| 0 <= j < 6 ==> !adkar_fires(s, i, j),
    ensures
        fired_slots(s, i, k).len() == 0,
    decreases k,
{
    if k > 0 {
        lemma_no_fired_slots(s, i, k - 1);
    }
}

/// Sunrise is announced but never starts the Adhan nor an Iqamah countdown,
/// and a muted Adhan is never started.
pub proof fn lemma_adhan_only_for_unmuted_prayers(s: TimerStateView, i: TickInput)
    ensures
        ({
            let (s1, o1) = tick_spec(s, i);
            o1.play_adhan is Some ==> (!i.adhan_muted && i.next is Some && !is_sunrise(
                i.next->0.name@,
            ) && o1.play_adhan == Some(i.next->0.name@))
        }),
        i.next is Some && is_sunrise(i.next->0.name@) ==> after_notifications(
            after_prelude(s, i),
            i,
            i.next->0.name@,
            i.next->0.time as int,
        ).iqamah == after_prelude(s, i).iqamah,
{
}

/// When the Adhan for a prayer is due, its Iqamah countdown is set to end
/// the configured number of minutes after the prayer time, and the home page
/// then counts down to it.
pub proof fn lemma_iqamah_follows_adhan(s: TimerStateView, i: TickInput)
    requires
        i.next is Some,
        !is_sunrise(i.next->0.name@),
        prayer_due(
            after_prelude(s, i),
            i.next->0.name@,
            i.next->0.time - i.now,
        ),
    ensures
        ({
            let (s1, o1) = tick_spec(s, i);
            let name = i.next->0.name@;
            let ends = i.next->0.time + 60 * i.iqamah_minutes;
            &&& s1.iqamah == Some(IqamahView { prayer: name, ends_at: ends })
            &&& o1.notices.contains(NoticeView::PrayerTime(name, true))
            &&& ends > i.now ==> o1.display->0.hero == HeroView::Iqamah(
                name,
                (ends - i.now) / 60,
                (ends - i.now) % 60,
            )
        }),
{
    let (s1, o1) = tick_spec(s, i);
    let name = i.next->0.name@;
    let time = i.next->0.time as int;
    let total = time - i.now;
    let s2 = after_prelude(s, i);
    assert(!pre_prayer_due(s2, i, name, total));
    let pre_part = opt_notice(false, NoticeView::PrePrayer(name));
    let pray_part = opt_notice(true, NoticeView::PrayerTime(name, true));
    assert((pre_part + pray_part)[0] == NoticeView::PrayerTime(name, true));
    let rest = o1.notices;
    assert(rest[0] == NoticeView::PrayerTime(name, true));
}

proof fn lemma_contains_add<A>(x: Seq<A>, y: Seq<A>, e: A)
    ensures
        (x + y).contains(e) <==> (x.contains(e) || y.contains(e)),
{
    if (x + y).contains(e) {
        let j = choose|j: int| 0 <= j < (x + y).len() && (x + y)[j] == e;
        if j < x.len() {
            assert(x[j] == e);
        } else {
            assert(y[j - x.len()] == e);
        }
    }
    if x.contains(e) {
        let j = choose|j: int| 0 <= j < x.len() && x[j] == e;
        assert((x + y)[j] == e);
    }
    if y.contains(e) {
        let j = choose|j: int| 0 <= j < y.len() && y[j] == e;
        assert((x + y)[x.len() + j] == e);
    }
}

proof fn lemma_fired_contains(s: TimerStateView, i: TickInput, n: int, k: int)
    requires
        0 <= n <= 6,
        0 <= k < 6,
    ensures
        fired_slots(s, i, n).map_values(|x: AdkarSlot| NoticeView::Adkar(x)).contains(
            NoticeView::Adkar(slot_at(k)),
        ) <==> (k < n && adkar_fires(s, i, k)),
    decreases n,
{
    let f = |x: AdkarSlot| NoticeView::Adkar(x);
    if n > 0 {
        lemma_fired_contains(s, i, n - 1, k);
        let prev = fired_slots(s, i, n - 1);
        if adkar_fires(s, i, n - 1) {
            assert(fired_slots(s, i, n).map_values(f) =~= prev.map_values(f).push(
                NoticeView::Adkar(slot_at(n - 1)),
            ));
            lemma_contains_add(prev.map_values(f), seq![NoticeView::Adkar(slot_at(n - 1))], NoticeView::Adkar(slot_at(k)));
            assert(prev.map_values(f).push(NoticeView::Adkar(slot_at(n - 1))) =~= prev.map_values(f)
                + seq![NoticeView::Adkar(slot_at(n - 1))]);
            if seq![NoticeView::Adkar(slot_at(n - 1))].contains(NoticeView::Adkar(slot_at(k))) {
                assert(seq![NoticeView::Adkar(slot_at(n - 1))][0] == NoticeView::Adkar(slot_at(k)));
            }
            if k == n - 1 {
                assert(seq![NoticeView::Adkar(slot_at(n - 1))][0] == NoticeView::Adkar(slot_at(k)));
            }
        }
    } else {
        assert(fired_slots(s, i, 0).map_values(f) =~= Seq::<NoticeView>::empty());
    }
}

/// Which adkar reminders a tick shows: slot `k` exactly when the reminders
/// are on, it has not been shown today, and the time is in its one-minute
/// window counted from its prayer.
pub open spec fn adkar_shown(o: TickOutputView, k: int) -> bool {
    o.notices.contains(NoticeView::Adkar(slot_at(k)))
}

/// The six adkar reminders each come once a day, in a one-minute window
/// counted from their own prayer: the morning ones 1 and 30 minutes after
/// Fajr, the evening ones 15 and 45 minutes after Asr, the night ones 30
/// and 60 minutes after Isha; only the first timer shows them, only while
/// they are enabled and outside Adhan-only mode, and never twice on a day.
pub proof fn lemma_adkar_reminder_windows(s: TimerStateView, i: TickInput)
    requires
        s.adkar_sent.len() == 6,
        i.next is Some,
    ensures
        ({
            let o = tick_spec(s, i).1;
            let on = s.is_core_timer && i.adkar_notification_enabled && !i.adhan_only_mode;
            let t = i.now as int;
            let a = i.anchors->0;
            &&& i.anchors is None ==> forall|k: int| 0 <= k < 6 ==> !adkar_shown(o, k)
            &&& i.anchors is Some ==> {
                &&& o.notices.contains(NoticeView::Adkar(AdkarSlot::MorningFirst)) <==> (on
                    && a.fajr + 60 <= t < a.fajr + 120 && s.adkar_sent[0] != Some(i.today))
                &&& o.notices.contains(NoticeView::Adkar(AdkarSlot::MorningSecond)) <==> (on
                    && a.fajr + 1800 <= t < a.fajr + 1860 && s.adkar_sent[1] != Some(i.today))
                &&& o.notices.contains(NoticeView::Adkar(AdkarSlot::EveningFirst)) <==> (on
                    && a.asr + 900 <= t < a.asr + 960 && s.adkar_sent[2] != Some(i.today))
                &&& o.notices.contains(NoticeView::Adkar(AdkarSlot::EveningSecond)) <==> (on
                    && a.asr + 2700 <= t < a.asr + 2760 && s.adkar_sent[3] != Some(i.today))
                &&& o.notices.contains(NoticeView::Adkar(AdkarSlot::NightFirst)) <==> (on
                    && a.isha + 1800 <= t < a.isha + 1860 && s.adkar_sent[4] != Some(i.today))
                &&& o.notices.contains(NoticeView::Adkar(AdkarSlot::NightSecond)) <==> (on
                    && a.isha + 3600 <= t < a.isha + 3660 && s.adkar_sent[5] != Some(i.today))
            }
        }),
{
    let o = tick_spec(s, i).1;
    let up = i.next->0;
    let name = up.name@;
    let time = up.time as int;
    let total = time - i.now;
    let s2 = after_prelude(s, i);
    let pre = pre_prayer_due(s2, i, name, total);
    let s3 = if pre {
        TimerStateView { last_pre_notified: Some(name), ..s2 }
    } else {
        s2
    };
    let pray = prayer_due(s3, name, total);
    let s4 = after_notifications(s2, i, name, time);
    let refresh = adkar_active(s4, i) && s4.adkar_lists_day != i.today;
    let s5 = if refresh {
        TimerStateView { adkar_lists_day: i.today as int, ..s4 }
    } else {
        s4
    };
    let s7 = after_reset(after_adkar(s4, i), total);
    let iq = iqamah_due(s7, i);
    let fired = fired_slots(s5, i, 6);
    let f = |x: AdkarSlot| NoticeView::Adkar(x);
    let x1 = opt_notice(pre, NoticeView::PrePrayer(name));
    let x2 = opt_notice(pray, NoticeView::PrayerTime(name, !is_sunrise(name)));
    let x4 = opt_notice(iq, NoticeView::Iqamah(s7.iqamah.unwrap().prayer));
    assert(o.notices == x1 + x2 + fired.map_values(f) + x4);
    assert(s5.adkar_sent == s.adkar_sent);
    assert forall|k: int| 0 <= k < 6 implies (adkar_shown(o, k) <==> adkar_fires(s5, i, k)) by {
        let e = NoticeView::Adkar(slot_at(k));
        lemma_contains_add(x1 + x2 + fired.map_values(f), x4, e);
        lemma_contains_add(x1 + x2, fired.map_values(f), e);
        lemma_contains_add(x1, x2, e);
        if x1.contains(e) {
            let j = choose|j: int| 0 <= j < x1.len() && x1[j] == e;
        }
        if x2.contains(e) {
            let j = choose|j: int| 0 <= j < x2.len() && x2[j] == e;
        }
        if x4.contains(e) {
            let j = choose|j: int| 0 <= j < x4.len() && x4[j] == e;
        }
        lemma_fired_contains(s5, i, 6, k);
    }
    assert(adkar_shown(o, 0) == o.notices.contains(NoticeView::Adkar(AdkarSlot::MorningFirst)));
    assert(adkar_shown(o, 1) == o.notices.contains(NoticeView::Adkar(AdkarSlot::MorningSecond)));
    assert(adkar_shown(o, 2) == o.notices.contains(NoticeView::Adkar(AdkarSlot::EveningFirst)));
    assert(adkar_shown(o, 3) == o.notices.contains(NoticeView::Adkar(AdkarSlot::EveningSecond)));
    assert(adkar_shown(o, 4) == o.notices.contains(NoticeView::Adkar(AdkarSlot::NightFirst)));
    assert(adkar_shown(o, 5) == o.notices.contains(NoticeView::Adkar(AdkarSlot::NightSecond)));
}

proof fn lemma_hours_minutes_seconds(t: int)
    requires
        t >= 0,
    ensures
        (t / 3600) * 3600 + ((t / 60) % 60) * 60 + t % 60 == t,
        t / 3600 >= 0,
        0 <= (t / 60) % 60 < 60,
        0 <= t % 60 < 60,
{
    let q = t / 60;
    assert(t == q * 60 + t % 60);
    assert(q == (q / 60) * 60 + q % 60);
    assert(t / 3600 == q / 60);
}

/// The large line always adds up: a countdown to the next prayer shows the
/// whole hours, minutes and seconds left, which add up to the time left; an
/// Iqamah countdown shows the minutes and seconds left before the Iqamah;
/// with neither running it says "It's time for" the prayer.
pub proof fn lemma_home_line_adds_up(s: TimerStateView, i: TickInput)
    requires
        i.next is Some,
    ensures
        ({
            let (s1, o) = tick_spec(s, i);
            let name = i.next->0.name@;
            let total = i.next->0.time - i.now;
            let iq_ahead = s1.iqamah is Some && s1.iqamah->0.ends_at > i.now;
            &&& o.display is Some
            &&& o.display->0.next_prayer_name == name
            &&& (o.display->0.hero matches HeroView::Countdown(p, h, m, sec) ==> p == name && !iq_ahead
                && h >= 0 && 0 <= m < 60 && 0 <= sec < 60 && h * 3600 + m * 60 + sec == total)
            &&& (o.display->0.hero matches HeroView::Iqamah(p, m, sec) ==> iq_ahead && p
                == s1.iqamah->0.prayer && m >= 0 && 0 <= sec < 60 && m * 60 + sec == s1.iqamah->0.ends_at
                - i.now)
            &&& (!iq_ahead && total > 0 ==> o.display->0.hero is Countdown)
            &&& (!iq_ahead && total <= 0 ==> o.display->0.hero == HeroView::TimeFor(name))
        }),
{
    let total = i.next->0.time - i.now;
    if total > 0 {
        lemma_hours_minutes_seconds(total);
    }
    let (s1, o) = tick_spec(s, i);
    if s1.iqamah is Some && s1.iqamah->0.ends_at > i.now {
        lemma_hours_minutes_seconds(s1.iqamah->0.ends_at - i.now);
    }
}

/// When each prayer notification is shown: the pre-prayer alert for a
/// prayer (not sunrise) once, within the configured lead time before it; the
/// prayer-time notification once, within its first minute; the Adhan then
/// starts for a prayer (not sunrise) unless muted; the connected-mosque
/// refresh is asked for at most once a day, when wanted and not fetched.
pub proof fn lemma_prayer_notices(s: TimerStateView, i: TickInput)
    requires
        i.next is Some,
    ensures
        ({
            let o = tick_spec(s, i).1;
            let name = i.next->0.name@;
            let total = i.next->0.time - i.now;
            let pre = s.is_core_timer && i.pre_prayer_notify && !i.adhan_only_mode && 0 < total
                <= i.pre_prayer_minutes * 60 && name != "Sunrise"@ && s.last_pre_notified != Some(
                name,
            );
            let pray = s.is_core_timer && -60 < total <= 0 && s.last_notified_prayer != Some(name);
            &&& o.notices.contains(NoticeView::PrePrayer(name)) <==> pre
            &&& o.notices.contains(NoticeView::PrayerTime(name, name != "Sunrise"@)) <==> pray
            &&& o.play_adhan == (if pray && name != "Sunrise"@ && !i.adhan_muted {
                Some(name)
            } else {
                None
            })
            &&& o.fetch_mawaqit == (i.mawaqit_refresh_wanted && !i.mawaqit_fetched_today
                && s.last_mawaqit_attempt_day != Some(i.today as int))
        }),
{
    let o = tick_spec(s, i).1;
    let up = i.next->0;
    let name = up.name@;
    let time = up.time as int;
    let total = time - i.now;
    let s2 = after_prelude(s, i);
    let pre = pre_prayer_due(s2, i, name, total);
    let s3 = if pre {
        TimerStateView { last_pre_notified: Some(name), ..s2 }
    } else {
        s2
    };
    let pray = prayer_due(s3, name, total);
    let s4 = after_notifications(s2, i, name, time);
    let refresh = adkar_active(s4, i) && s4.adkar_lists_day != i.today;
    let s5 = if refresh {
        TimerStateView { adkar_lists_day: i.today as int, ..s4 }
    } else {
        s4
    };
    let s7 = after_reset(after_adkar(s4, i), total);
    let iq = iqamah_due(s7, i);
    let fired = fired_slots(s5, i, 6);
    let f = |x: AdkarSlot| NoticeView::Adkar(x);
    let x1 = opt_notice(pre, NoticeView::PrePrayer(name));
    let x2 = opt_notice(pray, NoticeView::PrayerTime(name, !is_sunrise(name)));
    let x3 = fired.map_values(f);
    let x4 = opt_notice(iq, NoticeView::Iqamah(s7.iqamah.unwrap().prayer));
    assert(o.notices == x1 + x2 + x3 + x4);
    let e1 = NoticeView::PrePrayer(name);
    let e2 = NoticeView::PrayerTime(name, !is_sunrise(name));
    lemma_contains_add(x1 + x2 + x3, x4, e1);
    lemma_contains_add(x1 + x2, x3, e1);
    lemma_contains_add(x1, x2, e1);
    lemma_contains_add(x1 + x2 + x3, x4, e2);
    lemma_contains_add(x1 + x2, x3, e2);
    lemma_contains_add(x1, x2, e2);
    if x1.contains(e1) {
        assert(x1[0] == e1);
    }
    if pre {
        assert(x1[0] == e1);
    }
    if x2.contains(e2) {
        assert(x2[0] == e2);
    }
    if pray {
        assert(x2[0] == e2);
    }
    if x2.contains(e1) {
        let j = choose|j: int| 0 <= j < x2.len() && x2[j] == e1;
    }
    if x1.contains(e2) {
        let j = choose|j: int| 0 <= j < x1.len() && x1[j] == e2;
    }
    if x3.contains(e1) {
        let j = choose|j: int| 0 <= j < x3.len() && x3[j] == e1;
    }
    if x3.contains(e2) {
        let j = choose|j: int| 0 <= j < x3.len() && x3[j] == e2;
    }
    if x4.contains(e1) {
        let j = choose|j: int| 0 <= j < x4.len() && x4[j] == e1;
    }
    if x4.contains(e2) {
        let j = choose|j: int| 0 <= j < x4.len() && x4[j] == e2;
    }
}

} // verus!
