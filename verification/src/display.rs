//! The text the application shows: the hijri date line, the home page's
//! large line, notification titles and bodies, the tray menu labels, and
//! whether a label needs the Arabic font.
use vstd::prelude::*;
use crate::i18n::strs;
use crate::text::{append_str, decimal, owned, push_decimal, push_two_digits, two_digits};
use crate::timer::{AdkarSlot, Hero, HeroView, Notice, NoticeView};

verus! {

// ------------------------------------------------------------ Arabic script
/// Code points of the Arabic blocks (Arabic, Arabic Supplement, Arabic
/// Extended-A, Presentation Forms-A and -B).
pub open spec fn is_arabic_code(u: u32) -> bool {
    (0x0600 <= u <= 0x06FF) || (0x0750 <= u <= 0x077F) || (0x08A0 <= u <= 0x08FF) || (0xFB50 <= u
        <= 0xFDFF) || (0xFE70 <= u <= 0xFEFF)
}

/// Whether a text holds Arabic script (and so is shown in the Arabic font).
pub fn contains_arabic(text: &str) -> (r: bool)
    ensures
        r == exists|i: int| 0 <= i < text@.len() && is_arabic_code(text@[i] as u32),
{
    let v = crate::text::chars_of(text);
    let mut i: usize = 0;
    while i < v.len()
        invariant
            v@ == text@,
            i <= v@.len(),
            forall|j: int| 0 <= j < i ==> !is_arabic_code(v@[j] as u32),
        decreases v@.len() - i,
    {
        let u = v[i] as u32;
        if (0x0600 <= u && u <= 0x06FF) || (0x0750 <= u && u <= 0x077F) || (0x08A0 <= u && u
            <= 0x08FF) || (0xFB50 <= u && u <= 0xFDFF) || (0xFE70 <= u && u <= 0xFEFF) {
            return true;
        }
        i = i + 1;
    }
    false
}

// ------------------------------------------------------------ hijri date
/// A date of the Umm al-Qura calendar.
#[derive(Clone, Copy, Debug, PartialEq, Eq, Structural)]
pub struct HijriDay {
    pub day: usize,
    pub month: usize,
    pub year: usize,
}

/// The Umm al-Qura date (day, month, year) that `hijri_date` gives for a
/// Gregorian date, or `None` where it refuses the date.
pub uninterp spec fn umm_al_qura(year: usize, month: usize, day: usize) -> Option<(usize, usize, usize)>;

/// `hijri_date::HijriDate::from_gr`: converts a Gregorian date to the Umm
/// al-Qura calendar. Its source refuses months above 12, days above 31,
/// years outside 1938..=2076 and dates that are not valid, and always
/// yields a month in 1..=12; the conversion itself is named, not stated.
#[verifier::external_body]
fn hijri_from_gregorian(year: usize, month: usize, day: usize) -> (r: Option<HijriDay>)
    ensures
        match r {
            Some(h) => umm_al_qura(year, month, day) == Some((h.day, h.month, h.year)),
            None => umm_al_qura(year, month, day) is None,
        },
        (month > 12 || day > 31 || year < 1938 || year > 2076) ==> r is None,
        r matches Some(h) ==> 1 <= h.month <= 12,
{
    match hijri_date::HijriDate::from_gr(year, month, day) {
        Ok(h) => Some(HijriDay { day: h.day(), month: h.month(), year: h.year() }),
        Err(_) => None,
    }
}

/// The English names of the hijri months, as message keys.
pub open spec fn hijri_month_keys() -> Seq<Seq<char>> {
    seq![
        "Muharram"@,
        "Safar"@,
        "Rabi' al-Awwal"@,
        "Rabi' al-Thani"@,
        "Jumada al-Ula"@,
        "Jumada al-Akhirah"@,
        "Rajab"@,
        "Sha'ban"@,
        "Ramadan"@,
        "Shawwal"@,
        "Dhu al-Qi'dah"@,
        "Dhu al-Hijjah"@,
    ]
}

fn hijri_month_key(month: usize) -> (k: &'static str)
    requires
        1 <= month <= 12,
    ensures
        k@ == hijri_month_keys()[month - 1],
        !k@.contains('\0'),
{
    proof {
        reveal_strlit("Muharram");
        reveal_strlit("Safar");
        reveal_strlit("Rabi' al-Awwal");
        reveal_strlit("Rabi' al-Thani");
        reveal_strlit("Jumada al-Ula");
        reveal_strlit("Jumada al-Akhirah");
        reveal_strlit("Rajab");
        reveal_strlit("Sha'ban");
        reveal_strlit("Ramadan");
        reveal_strlit("Shawwal");
        reveal_strlit("Dhu al-Qi'dah");
        reveal_strlit("Dhu al-Hijjah");
    }
    match month {
        1 => "Muharram",
        2 => "Safar",
        3 => "Rabi' al-Awwal",
        4 => "Rabi' al-Thani",
        5 => "Jumada al-Ula",
        6 => "Jumada al-Akhirah",
        7 => "Rajab",
        8 => "Sha'ban",
        9 => "Ramadan",
        10 => "Shawwal",
        11 => "Dhu al-Qi'dah",
        _ => "Dhu al-Hijjah",
    }
}

/// "day month-name year".
pub open spec fn hijri_line_spec(day: usize, month_name: Seq<char>, year: usize) -> Seq<char> {
    decimal(day as nat) + " "@ + month_name + " "@ + decimal(year as nat)
}

pub fn hijri_line(day: usize, month_name: &str, year: usize) -> (r: String)
    ensures
        r@ == hijri_line_spec(day, month_name@, year),
{
    let mut r = String::new();
    push_decimal(&mut r, day as u128);
    append_str(&mut r, " ");
    append_str(&mut r, month_name);
    append_str(&mut r, " ");
    push_decimal(&mut r, year as u128);
    assert(r@ =~= hijri_line_spec(day, month_name@, year));
    r
}

/// The hijri date of a Gregorian date (already shifted by the user's hijri
/// correction), with its month as a message key: (day, month key, year),
/// or `None` where the calendar has no date for it.
pub fn hijri_parts(year: usize, month: usize, day: usize) -> (r: Option<(usize, &'static str, usize)>)
    ensures
        match umm_al_qura(year, month, day) {
            None => r is None,
            Some((d, m, y)) => r matches Some((rd, k, ry)) && rd == d && ry == y && 1 <= m <= 12
                && k@ == hijri_month_keys()[m - 1] && !k@.contains('\0'),
        },
{
    match hijri_from_gregorian(year, month, day) {
        Some(h) => Some((h.day, hijri_month_key(h.month), h.year)),
        None => None,
    }
}

/// The hijri date line, given the date with its month name translated:
/// "day month-name year", or "—" where the calendar has no date.
pub fn hijri_text(date: Option<(usize, String, usize)>) -> (r: String)
    ensures
        match date {
            None => r@ == "—"@,
            Some((d, name, y)) => r@ == hijri_line_spec(d, name@, y),
        },
{
    match date {
        Some((d, name, y)) => hijri_line(d, name.as_str(), y),
        None => owned("—"),
    }
}

// ------------------------------------------------------------ home page line
/// The message key of the word in the large line.
pub open spec fn hero_word(h: HeroView) -> Seq<char> {
    match h {
        HeroView::Countdown(..) => "in"@,
        HeroView::TimeFor(..) => "It's time for"@,
        HeroView::Iqamah(..) => "Iqamah"@,
    }
}

pub open spec fn hero_prayer(h: HeroView) -> Seq<char> {
    match h {
        HeroView::Countdown(p, ..) => p,
        HeroView::TimeFor(p) => p,
        HeroView::Iqamah(p, ..) => p,
    }
}

/// The large line, given the translated prayer name and word:
/// "Asr in 01:05:09", "It's time for Asr", "Iqamah Asr 07:30".
pub open spec fn hero_line_spec(h: HeroView, prayer: Seq<char>, word: Seq<char>) -> Seq<char> {
    match h {
        HeroView::Countdown(_, hh, mm, ss) => prayer + " "@ + word + " "@ + two_digits(hh as nat)
            + ":"@ + two_digits(mm as nat) + ":"@ + two_digits(ss as nat),
        HeroView::TimeFor(_) => word + " "@ + prayer,
        HeroView::Iqamah(_, mm, ss) => word + " "@ + prayer + " "@ + two_digits(mm as nat) + ":"@
            + two_digits(ss as nat),
    }
}

pub fn hero_line(hero: &Hero, prayer: &str, word: &str) -> (r: String)
    ensures
        r@ == hero_line_spec(hero@, prayer@, word@),
{
    let mut r = String::new();
    match hero {
        Hero::Countdown { hours, minutes, seconds, .. } => {
            append_str(&mut r, prayer);
            append_str(&mut r, " ");
            append_str(&mut r, word);
            append_str(&mut r, " ");
            push_two_digits(&mut r, *hours);
            append_str(&mut r, ":");
            push_two_digits(&mut r, *minutes);
            append_str(&mut r, ":");
            push_two_digits(&mut r, *seconds);
        },
        Hero::TimeFor { .. } => {
            append_str(&mut r, word);
            append_str(&mut r, " ");
            append_str(&mut r, prayer);
        },
        Hero::Iqamah { minutes, seconds, .. } => {
            append_str(&mut r, word);
            append_str(&mut r, " ");
            append_str(&mut r, prayer);
            append_str(&mut r, " ");
            push_two_digits(&mut r, *minutes);
            append_str(&mut r, ":");
            push_two_digits(&mut r, *seconds);
        },
    }
    assert(r@ =~= hero_line_spec(hero@, prayer@, word@));
    r
}

/// The message keys of the large line: the prayer's name and the word.
pub fn hero_keys(hero: &Hero) -> (r: (&str, &'static str))
    ensures
        r.0@ == hero_prayer(hero@),
        r.1@ == hero_word(hero@),
{
    proof {
        reveal_strlit("in");
        reveal_strlit("It's time for");
        reveal_strlit("Iqamah");
    }
    match hero {
        Hero::Countdown { prayer, .. } => (prayer.as_str(), "in"),
        Hero::TimeFor { prayer } => (prayer.as_str(), "It's time for"),
        Hero::Iqamah { prayer, .. } => (prayer.as_str(), "Iqamah"),
    }
}

// ------------------------------------------------------------ notifications
/// The message key of an adkar reminder's title.
pub open spec fn adkar_title_key(k: AdkarSlot) -> Seq<char> {
    match k {
        AdkarSlot::MorningFirst | AdkarSlot::MorningSecond => "Morning Adkar"@,
        AdkarSlot::EveningFirst | AdkarSlot::EveningSecond => "Evening Adkar"@,
        _ => "Night Adkar"@,
    }
}

/// The title of a prayer notification, given the translated words.
pub open spec fn prayer_title_spec(word: Seq<char>, prayer: Seq<char>) -> Seq<char> {
    word + " "@ + prayer
}

/// The body of the pre-prayer alert: "Asr is in 15 minutes".
pub open spec fn pre_prayer_body_spec(prayer: Seq<char>, is_in: Seq<char>, minutes: u32, unit: Seq<char>) -> Seq<char> {
    prayer + " "@ + is_in + " "@ + decimal(minutes as nat) + " "@ + unit
}

/// The body of the prayer-time and Iqamah notifications: "It is now time for Asr."
pub open spec fn sentence_body_spec(lead: Seq<char>, prayer: Seq<char>) -> Seq<char> {
    lead + " "@ + prayer + "."@
}

fn join2(a: &str, b: &str) -> (r: String)
    ensures
        r@ == prayer_title_spec(a@, b@),
{
    let mut r = owned(a);
    append_str(&mut r, " ");
    append_str(&mut r, b);
    r
}

/// The message keys a notification's text is made of, in order: for the
/// pre-prayer alert the title word, the prayer, "is in" and "minutes"; for
/// the prayer-time and Iqamah notifications the title word, the prayer and
/// the body's lead; for an adkar reminder its title.
pub open spec fn notice_keys_spec(n: NoticeView) -> Seq<Seq<char>> {
    match n {
        NoticeView::PrePrayer(p) => seq!["Upcoming Prayer:"@, p, "is in"@, "minutes"@],
        NoticeView::PrayerTime(p, _) => seq!["It's time for"@, p, "It is now time for"@],
        NoticeView::Iqamah(p) => seq!["Iqamah"@, p, "It is time for Iqamah of"@],
        NoticeView::Adkar(k) => seq![adkar_title_key(k)],
    }
}

pub fn notice_keys(notice: &Notice) -> (v: Vec<String>)
    ensures
        strs(v@) == notice_keys_spec(notice@),
{
    let v = match notice {
        Notice::PrePrayer(p) => vec![
            owned("Upcoming Prayer:"),
            owned(p.as_str()),
            owned("is in"),
            owned("minutes"),
        ],
        Notice::PrayerTime { prayer, .. } => vec![
            owned("It's time for"),
            owned(prayer.as_str()),
            owned("It is now time for"),
        ],
        Notice::Iqamah(p) => vec![
            owned("Iqamah"),
            owned(p.as_str()),
            owned("It is time for Iqamah of"),
        ],
        Notice::Adkar(k) => match k {
            AdkarSlot::MorningFirst | AdkarSlot::MorningSecond => vec![owned("Morning Adkar")],
            AdkarSlot::EveningFirst | AdkarSlot::EveningSecond => vec![owned("Evening Adkar")],
            _ => vec![owned("Night Adkar")],
        },
    };
    assert(strs(v@) =~= notice_keys_spec(notice@));
    v
}

/// The title and body of a notification built from the translations `w` of
/// its message keys (adkar reminders show the reminder's text as body,
/// which the application supplies).
pub open spec fn notice_text_spec(n: NoticeView, minutes: u32, w: Seq<Seq<char>>) -> (
    Seq<char>,
    Option<Seq<char>>,
) {
    match n {
        NoticeView::PrePrayer(_) => (
            prayer_title_spec(w[0], w[1]),
            Some(pre_prayer_body_spec(w[1], w[2], minutes, w[3])),
        ),
        NoticeView::PrayerTime(..) => (
            prayer_title_spec(w[0], w[1]),
            Some(sentence_body_spec(w[2], w[1])),
        ),
        NoticeView::Iqamah(_) => (prayer_title_spec(w[0], w[1]), Some(sentence_body_spec(w[2], w[1]))),
        NoticeView::Adkar(_) => (w[0], None),
    }
}

/// The title and body of a notification, given the translations of its
/// message keys (`notice_keys`), in the same order.
pub fn notice_text(notice: &Notice, pre_prayer_minutes: u32, words: &Vec<String>) -> (r: (
    String,
    Option<String>,
))
    requires
        words@.len() == notice_keys_spec(notice@).len(),
    ensures
        ({
            let spec = notice_text_spec(notice@, pre_prayer_minutes, strs(words@));
            &&& r.0@ == spec.0
            &&& match r.1 {
                Some(b) => spec.1 == Some(b@),
                None => spec.1 is None,
            }
        }),
{
    let ghost w = strs(words@);
    assert(forall|k: int| 0 <= k < words@.len() ==> w[k] == words@[k]@);
    match notice {
        Notice::PrePrayer(_) => {
            let title = join2(words[0].as_str(), words[1].as_str());
            let mut body = join2(words[1].as_str(), words[2].as_str());
            append_str(&mut body, " ");
            push_decimal(&mut body, pre_prayer_minutes as u128);
            append_str(&mut body, " ");
            append_str(&mut body, words[3].as_str());
            assert(body@ =~= pre_prayer_body_spec(w[1], w[2], pre_prayer_minutes, w[3]));
            (title, Some(body))
        },
        Notice::PrayerTime { .. } | Notice::Iqamah(_) => {
            let title = join2(words[0].as_str(), words[1].as_str());
            let mut body = join2(words[2].as_str(), words[1].as_str());
            append_str(&mut body, ".");
            assert(body@ =~= sentence_body_spec(w[2], w[1]));
            (title, Some(body))
        },
        Notice::Adkar(_) => (owned(words[0].as_str()), None),
    }
}

// ------------------------------------------------------------ tray
/// The message keys of the tray menu's two labels.
pub fn tray_label_keys() -> (r: (&'static str, &'static str))
    ensures
        r.0@ == "Open Khushu"@,
        r.1@ == "Quit"@,
{
    ("Open Khushu", "Quit")
}

/// The language the tray starts with: `LANGUAGE`, or English when unset.
pub fn tray_language(language_env: &str) -> (r: String)
    ensures
        r@ == if language_env@.len() == 0 {
            "en"@
        } else {
            language_env@
        },
{
    if language_env.unicode_len() == 0 {
        owned("en")
    } else {
        owned(language_env)
    }
}

} // verus!
