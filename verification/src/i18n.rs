//! Locale selection and message translation: which system locales to try
//! for a language, which catalog directories to look in, how the system
//! language is detected, and the lookup cascade through the message
//! catalogs of the application and of the libraries it uses.
use vstd::prelude::*;
use crate::text::{
    append_str, before_char, chars_of, contains_char, owned, prefix_before, replace_char,
    replaced, str_eq, trim, trimmed,
};

verus! {

// ------------------------------------------------------------ gettext calls
/// A message domain that gettext hands out in UTF-8. One is only made by
/// `Utf8Domain::bind`, after gettext reported UTF-8 as the domain's codeset.
pub struct Utf8Domain {
    name: String,
}

impl Utf8Domain {
    /// The domain's name.
    pub closed spec fn name(&self) -> Seq<char> {
        self.name@
    }

    /// Asks gettext to hand out the translations of `domain` in UTF-8; gives
    /// the domain when gettext reports UTF-8 as its codeset afterwards.
    pub fn bind(domain: &str) -> (r: Option<Utf8Domain>)
        requires
            !domain@.contains('\0'),
        ensures
            r matches Some(d) ==> d.name() == domain@,
    {
        proof {
            reveal_strlit("UTF-8");
        }
        match bind_domain_utf8(domain) {
            Some(codeset) => if str_eq(codeset.as_str(), "UTF-8") {
                Some(Utf8Domain { name: owned(domain) })
            } else {
                None
            },
            None => None,
        }
    }
}

/// `gettextrs::dgettext`: the translation of `key` in the message catalog
/// of `domain` for the current locale. The result depends on the catalogs
/// installed and the locale in force, so nothing is stated of it. Its
/// documentation says the call panics on a NUL character in an argument
/// (excluded here) and on a result that is not UTF-8, and names binding
/// the domain's codeset to UTF-8 as the remedy: the domain is a
/// `Utf8Domain`, made only once gettext reported that codeset for it.
#[verifier::external_body]
fn dgettext_lookup(domain: &Utf8Domain, key: &str) -> String
    requires
        !domain.name().contains('\0'),
        !key@.contains('\0'),
{
    gettextrs::dgettext(domain.name.as_str(), key)
}

/// `gettextrs::setlocale(LcAll, locale)`: asks the C library to switch
/// every locale category to `locale` (the empty name means the one the
/// environment selects). The result (the name of the locale in force, or
/// `None` when the request failed) depends on the locales installed, so
/// nothing is stated of it. The call panics when `locale` holds a NUL
/// character, which is excluded.
#[verifier::external_body]
fn setlocale_all(locale: &str) -> Option<Vec<u8>>
    requires
        !locale@.contains('\0'),
{
    gettextrs::setlocale(gettextrs::LocaleCategory::LcAll, locale)
}

/// `gettextrs::bindtextdomain`: tells gettext to look for the catalogs of
/// `domain` under `dir`. Whether the C library accepted the request is
/// left unsaid, as the application ignores it. The call panics when an
/// argument holds a NUL character, which is excluded.
#[verifier::external_body]
fn bind_domain_dir(domain: &str, dir: &str)
    requires
        !domain@.contains('\0'),
        !dir@.contains('\0'),
{
    let _ = gettextrs::bindtextdomain(domain, dir);
}

/// `gettextrs::bind_textdomain_codeset(domain, "UTF-8")`: asks gettext to
/// hand out the translations of `domain` in UTF-8, and gives the codeset in
/// force for the domain afterwards (`None` when gettext reports none or
/// fails). What gettext reports depends on the process, so nothing is
/// stated of it. The call panics when `domain` holds a NUL character
/// (excluded here) or when the reported codeset name is not UTF-8 text,
/// which it is not: the name reported is the one just set.
#[verifier::external_body]
fn bind_domain_utf8(domain: &str) -> Option<String>
    requires
        !domain@.contains('\0'),
{
    match gettextrs::bind_textdomain_codeset(domain, "UTF-8") {
        Ok(Some(codeset)) => Some(codeset),
        Ok(None) => None,
        Err(_) => None,
    }
}

/// What `String::from_utf8_lossy` makes of a byte string.
pub uninterp spec fn utf8_lossy(bytes: Seq<u8>) -> Seq<char>;

/// `String::from_utf8_lossy(bytes).into_owned()`.
#[verifier::external_body]
fn lossy_string(bytes: &Vec<u8>) -> (s: String)
    ensures
        s@ == utf8_lossy(bytes@),
{
    String::from_utf8_lossy(bytes.as_slice()).into_owned()
}

pub open spec fn strs(v: Seq<String>) -> Seq<Seq<char>> {
    v.map_values(|s: String| s@)
}

// ------------------------------------------------------------ locale names
/// The system locales tried, in order, for a language.
pub open spec fn fallback_order(lang: Seq<char>) -> Seq<Seq<char>> {
    if lang == "ar"@ {
        seq!["ar_DZ.UTF-8"@, "ar_SA.UTF-8"@, "ar.UTF-8"@, "en_US.UTF-8"@, "C.UTF-8"@]
    } else if lang == "fr"@ {
        seq!["fr_FR.UTF-8"@, "fr.UTF-8"@, "en_US.UTF-8"@, "C.UTF-8"@]
    } else if lang == "es"@ {
        seq!["es_ES.UTF-8"@, "es.UTF-8"@, "en_US.UTF-8"@, "C.UTF-8"@]
    } else if lang == "tr"@ {
        seq!["tr_TR.UTF-8"@, "tr.UTF-8"@, "en_US.UTF-8"@, "C.UTF-8"@]
    } else if lang == "id"@ {
        seq!["id_ID.UTF-8"@, "id.UTF-8"@, "en_US.UTF-8"@, "C.UTF-8"@]
    } else {
        seq![lang + ".UTF-8"@, "en_US.UTF-8"@, "C.UTF-8"@]
    }
}

fn four(a: &str, b: &str, c: &str, d: &str) -> (v: Vec<String>)
    ensures
        strs(v@) == seq![a@, b@, c@, d@],
{
    let v = vec![owned(a), owned(b), owned(c), owned(d)];
    assert(strs(v@) =~= seq![a@, b@, c@, d@]);
    v
}

pub fn locale_fallback_order(lang: &str) -> (v: Vec<String>)
    ensures
        strs(v@) == fallback_order(lang@),
{
    if str_eq(lang, "ar") {
        let v = vec![
            owned("ar_DZ.UTF-8"),
            owned("ar_SA.UTF-8"),
            owned("ar.UTF-8"),
            owned("en_US.UTF-8"),
            owned("C.UTF-8"),
        ];
        assert(strs(v@) =~= fallback_order(lang@));
        v
    } else if str_eq(lang, "fr") {
        four("fr_FR.UTF-8", "fr.UTF-8", "en_US.UTF-8", "C.UTF-8")
    } else if str_eq(lang, "es") {
        four("es_ES.UTF-8", "es.UTF-8", "en_US.UTF-8", "C.UTF-8")
    } else if str_eq(lang, "tr") {
        four("tr_TR.UTF-8", "tr.UTF-8", "en_US.UTF-8", "C.UTF-8")
    } else if str_eq(lang, "id") {
        four("id_ID.UTF-8", "id.UTF-8", "en_US.UTF-8", "C.UTF-8")
    } else {
        let mut first = owned(lang);
        append_str(&mut first, ".UTF-8");
        let v = vec![first, owned("en_US.UTF-8"), owned("C.UTF-8")];
        assert(strs(v@) =~= fallback_order(lang@));
        v
    }
}

/// Whether a language setting means "follow the system".
pub open spec fn is_auto(lang: Seq<char>) -> bool {
    lang == "auto"@ || lang.len() == 0
}

pub fn is_auto_language(lang: &str) -> (r: bool)
    ensures
        r == is_auto(lang@),
{
    str_eq(lang, "auto") || lang.unicode_len() == 0
}

/// The locales tried, in order, for a language setting: the one the
/// environment selects (the empty name) for "auto", else the language's
/// fallbacks and then `C.UTF-8`.
pub open spec fn locale_attempts(lang: Seq<char>) -> Seq<Seq<char>> {
    if is_auto(lang) {
        seq![""@]
    } else {
        fallback_order(lang).push("C.UTF-8"@)
    }
}

pub fn locale_attempt_list(lang: &str) -> (v: Vec<String>)
    ensures
        strs(v@) == locale_attempts(lang@),
{
    if is_auto_language(lang) {
        proof {
            reveal_strlit("");
        }
        let v = vec![owned("")];
        assert(strs(v@) =~= locale_attempts(lang@));
        v
    } else {
        let mut v = locale_fallback_order(lang);
        let ghost before = strs(v@);
        v.push(owned("C.UTF-8"));
        assert(strs(v@) =~= before.push("C.UTF-8"@));
        v
    }
}

/// What to do after `tried` attempts to switch the locale, the last of
/// which the system accepted or not.
#[derive(Debug, PartialEq, Eq)]
pub enum LocaleStep {
    /// Ask the system for this locale next.
    Try(String),
    /// This locale, the last one asked for, is in force.
    Applied(String),
    /// Every locale was refused.
    Failed,
}

pub enum LocaleStepView {
    Try(Seq<char>),
    Applied(Seq<char>),
    Failed,
}

impl View for LocaleStep {
    type V = LocaleStepView;

    open spec fn view(&self) -> LocaleStepView {
        match self {
            LocaleStep::Try(l) => LocaleStepView::Try(l@),
            LocaleStep::Applied(l) => LocaleStepView::Applied(l@),
            LocaleStep::Failed => LocaleStepView::Failed,
        }
    }
}

/// The attempts are made in order and end at the first accepted locale.
pub open spec fn locale_step_spec(lang: Seq<char>, tried: int, last_accepted: bool) -> LocaleStepView {
    let attempts = locale_attempts(lang);
    if 0 < tried <= attempts.len() && last_accepted {
        LocaleStepView::Applied(attempts[tried - 1])
    } else if 0 <= tried < attempts.len() {
        LocaleStepView::Try(attempts[tried])
    } else {
        LocaleStepView::Failed
    }
}

pub fn locale_step(lang: &str, tried: usize, last_accepted: bool) -> (s: LocaleStep)
    ensures
        s@ == locale_step_spec(lang@, tried as int, last_accepted),
{
    let attempts = locale_attempt_list(lang);
    proof {
        assert(forall|k: int| 0 <= k < attempts@.len() ==> strs(attempts@)[k] == attempts@[k]@);
    }
    if 0 < tried && tried <= attempts.len() && last_accepted {
        LocaleStep::Applied(owned(attempts[tried - 1].as_str()))
    } else if tried < attempts.len() {
        LocaleStep::Try(owned(attempts[tried].as_str()))
    } else {
        LocaleStep::Failed
    }
}

/// Switches the process locale for `lang`, following `locale_step`: asks
/// the system for each locale of `locale_attempts` in turn and stops at the
/// first it accepts. Returns that locale, or `None` when every one was
/// refused.
pub fn apply_locale(lang: &str) -> (applied: Option<String>)
    requires
        !lang@.contains('\0'),
    ensures
        applied matches Some(a) ==> locale_attempts(lang@).contains(a@),
{
    let mut tried: usize = 0;
    let mut accepted = false;
    loop
        invariant
            !lang@.contains('\0'),
            tried <= locale_attempts(lang@).len(),
        decreases locale_attempts(lang@).len() - tried,
    {
        match locale_step(lang, tried, accepted) {
            LocaleStep::Try(l) => {
                proof {
                    lemma_attempt_has_no_nul(lang@, tried as int);
                }
                accepted = setlocale_all(l.as_str()).is_some();
                tried = tried + 1;
            },
            LocaleStep::Applied(l) => {
                assert(locale_attempts(lang@)[tried - 1] == l@);
                return Some(l);
            },
            LocaleStep::Failed => {
                return None;
            },
        }
    }
}

proof fn lemma_attempt_has_no_nul(lang: Seq<char>, i: int)
    requires
        !lang.contains('\0'),
        0 <= i < locale_attempts(lang).len(),
    ensures
        !locale_attempts(lang)[i].contains('\0'),
{
    reveal_strlit("");
    reveal_strlit("C.UTF-8");
    if !is_auto(lang) && i < fallback_order(lang).len() {
        lemma_fallback_has_no_nul(lang, i);
    }
}

proof fn lemma_fallback_has_no_nul(lang: Seq<char>, i: int)
    requires
        !lang.contains('\0'),
        0 <= i < fallback_order(lang).len(),
    ensures
        !fallback_order(lang)[i].contains('\0'),
{
    reveal_strlit("ar_DZ.UTF-8");
    reveal_strlit("ar_SA.UTF-8");
    reveal_strlit("ar.UTF-8");
    reveal_strlit("en_US.UTF-8");
    reveal_strlit("C.UTF-8");
    reveal_strlit("fr_FR.UTF-8");
    reveal_strlit("fr.UTF-8");
    reveal_strlit("es_ES.UTF-8");
    reveal_strlit("es.UTF-8");
    reveal_strlit("tr_TR.UTF-8");
    reveal_strlit("tr.UTF-8");
    reveal_strlit("id_ID.UTF-8");
    reveal_strlit("id.UTF-8");
    reveal_strlit(".UTF-8");
    let s = fallback_order(lang)[i];
    if s.contains('\0') {
        let k = choose|k: int| 0 <= k < s.len() && s[k] == '\0';
        if !(lang == "ar"@ || lang == "fr"@ || lang == "es"@ || lang == "tr"@ || lang == "id"@)
            && i == 0 {
            if k < lang.len() {
                assert(lang[k] == '\0');
            } else {
                assert((".UTF-8"@)[k - lang.len()] == '\0');
            }
        }
    }
}

/// The language name reduced to its core: the first entry of a `:` list,
/// without modifier (`@...`), codeset (`.UTF-8`) or surrounding spaces.
pub open spec fn normalized_language(lang: Seq<char>) -> Seq<char> {
    trim(before_char(before_char(before_char(lang, ':'), '@'), '.'))
}

/// The directory names under which a language's catalogs may stand:
/// the normalized name, its `-`/`_` variant, and its base language.
pub open spec fn candidates_spec(lang: Seq<char>) -> Seq<Seq<char>> {
    let n = normalized_language(lang);
    if n.len() == 0 {
        seq!["en"@]
    } else {
        let first = if n.contains('_') {
            seq![n, replace_char(n, '_', '-')]
        } else if n.contains('-') {
            seq![n, replace_char(n, '-', '_')]
        } else {
            seq![n]
        };
        let base = before_char(before_char(n, '-'), '_');
        if first.contains(base) {
            first
        } else {
            first.push(base)
        }
    }
}

fn vec_contains(v: &Vec<String>, s: &String) -> (r: bool)
    ensures
        r == strs(v@).contains(s@),
{
    let mut i: usize = 0;
    while i < v.len()
        invariant
            i <= v@.len(),
            forall|j: int| 0 <= j < i ==> v@[j]@ != s@,
        decreases v@.len() - i,
    {
        if v[i] == *s {
            assert(strs(v@)[i as int] == s@);
            return true;
        }
        i = i + 1;
    }
    proof {
        if strs(v@).contains(s@) {
            let j = choose|j: int| 0 <= j < strs(v@).len() && strs(v@)[j] == s@;
            assert(v@[j]@ == s@);
        }
    }
    false
}

pub fn locale_candidates(lang: &str) -> (v: Vec<String>)
    ensures
        strs(v@) == candidates_spec(lang@),
{
    let a = prefix_before(lang, ':');
    let b = prefix_before(a.as_str(), '@');
    let c = prefix_before(b.as_str(), '.');
    let n = trimmed(c.as_str());
    let nv = chars_of(n.as_str());
    if nv.len() == 0 {
        let v = vec![owned("en")];
        assert(strs(v@) =~= seq!["en"@]);
        return v;
    }
    let mut cands: Vec<String> = vec![owned(n.as_str())];
    if contains_char(&nv, '_') {
        cands.push(replaced(&nv, '_', '-'));
    } else if contains_char(&nv, '-') {
        cands.push(replaced(&nv, '-', '_'));
    }
    let ghost first = strs(cands@);
    assert(first =~= if n@.contains('_') {
        seq![n@, replace_char(n@, '_', '-')]
    } else if n@.contains('-') {
        seq![n@, replace_char(n@, '-', '_')]
    } else {
        seq![n@]
    });
    let d = prefix_before(n.as_str(), '-');
    let base = prefix_before(d.as_str(), '_');
    if !vec_contains(&cands, &base) {
        cands.push(base);
        assert(strs(cands@) =~= first.push(base@));
    }
    cands
}

/// Where a catalog of `domain` for a candidate language directory lives.
pub open spec fn catalog_path(dir: Seq<char>, candidate: Seq<char>, domain: Seq<char>) -> Seq<
    char,
> {
    dir + "/"@ + candidate + "/LC_MESSAGES/"@ + domain + ".mo"@
}

/// The catalog files whose presence means that `domain` has a catalog for
/// `lang` under `dir`, in the order they are looked for.
pub fn catalog_paths(dir: &str, lang: &str, domain: &str) -> (v: Vec<String>)
    ensures
        strs(v@) == candidates_spec(lang@).map_values(
            |c: Seq<char>| catalog_path(dir@, c, domain@),
        ),
{
    let cands = locale_candidates(lang);
    let mut v: Vec<String> = Vec::new();
    let mut i: usize = 0;
    while i < cands.len()
        invariant
            i <= cands@.len(),
            strs(cands@) == candidates_spec(lang@),
            strs(v@) == candidates_spec(lang@).take(i as int).map_values(
                |c: Seq<char>| catalog_path(dir@, c, domain@),
            ),
        decreases cands@.len() - i,
    {
        let mut p = owned(dir);
        append_str(&mut p, "/");
        append_str(&mut p, cands[i].as_str());
        append_str(&mut p, "/LC_MESSAGES/");
        append_str(&mut p, domain);
        append_str(&mut p, ".mo");
        let ghost before = strs(v@);
        v.push(p);
        proof {
            assert(strs(cands@)[i as int] == cands@[i as int]@);
            assert(strs(v@) =~= before.push(p@));
            assert(candidates_spec(lang@).take(i + 1) =~= candidates_spec(lang@).take(
                i as int,
            ).push(candidates_spec(lang@)[i as int]));
            assert(strs(v@) =~= candidates_spec(lang@).take(i + 1).map_values(
                |c: Seq<char>| catalog_path(dir@, c, domain@),
            ));
        }
        i = i + 1;
    }
    assert(candidates_spec(lang@).take(cands@.len() as int) =~= candidates_spec(lang@));
    v
}

// ------------------------------------------------------------ system language
/// The locale variables the process started with (each kept only when set
/// and non-empty).
#[derive(Clone, Debug, PartialEq, Eq)]
pub struct LocaleSnapshot {
    pub language: Option<String>,
    pub lc_all: Option<String>,
    pub lang: Option<String>,
}

pub open spec fn nonempty_or_none(v: Option<String>) -> Option<Seq<char>> {
    match v {
        Some(s) => if s@.len() > 0 {
            Some(s@)
        } else {
            None
        },
        None => None,
    }
}

pub open spec fn opt_str(v: Option<String>) -> Option<Seq<char>> {
    match v {
        Some(s) => Some(s@),
        None => None,
    }
}

fn keep_nonempty(v: Option<String>) -> (r: Option<String>)
    ensures
        opt_str(r) == nonempty_or_none(v),
{
    match v {
        Some(s) => if s.unicode_len() > 0 {
            Some(s)
        } else {
            None
        },
        None => None,
    }
}

impl LocaleSnapshot {
    /// The snapshot of `LANGUAGE`, `LC_ALL` and `LANG` as read from the environment.
    pub fn from_env(language: Option<String>, lc_all: Option<String>, lang: Option<String>) -> (s:
        LocaleSnapshot)
        ensures
            opt_str(s.language) == nonempty_or_none(language),
            opt_str(s.lc_all) == nonempty_or_none(lc_all),
            opt_str(s.lang) == nonempty_or_none(lang),
    {
        LocaleSnapshot {
            language: keep_nonempty(language),
            lc_all: keep_nonempty(lc_all),
            lang: keep_nonempty(lang),
        }
    }
}

pub open spec fn is_c_locale(l: Seq<char>) -> bool {
    l == "C"@ || l == "POSIX"@
}

/// The language a snapshot names, if any: from `LANGUAGE` (its first
/// entry), else `LC_ALL`, else `LANG` (without codeset), skipping the C locale.
pub open spec fn snapshot_language(s: LocaleSnapshot) -> Option<Seq<char>> {
    if s.language is Some && !is_c_locale(s.language->0@) {
        Some(before_char(s.language->0@, ':'))
    } else if s.lc_all is Some && !is_c_locale(s.lc_all->0@) {
        Some(before_char(s.lc_all->0@, '.'))
    } else if s.lang is Some && !is_c_locale(s.lang->0@) {
        Some(before_char(s.lang->0@, '.'))
    } else {
        None
    }
}

fn not_c_locale(l: &String) -> (r: bool)
    ensures
        r == !is_c_locale(l@),
{
    !(str_eq(l.as_str(), "C") || str_eq(l.as_str(), "POSIX"))
}

pub fn language_of_snapshot(s: &LocaleSnapshot) -> (r: Option<String>)
    ensures
        opt_str(r) == snapshot_language(*s),
{
    if let Some(l) = &s.language {
        if not_c_locale(l) {
            return Some(prefix_before(l.as_str(), ':'));
        }
    }
    if let Some(l) = &s.lc_all {
        if not_c_locale(l) {
            return Some(prefix_before(l.as_str(), '.'));
        }
    }
    if let Some(l) = &s.lang {
        if not_c_locale(l) {
            return Some(prefix_before(l.as_str(), '.'));
        }
    }
    None
}

/// The language named by the locale the C library reports, if it is a real
/// one: the part before the territory (`fr` of `fr_FR.UTF-8`).
pub open spec fn reported_language(name: Seq<char>) -> Option<Seq<char>> {
    if name.len() > 0 && !is_c_locale(name) {
        Some(before_char(name, '_'))
    } else {
        None
    }
}

pub fn language_of_reported_locale(name: &str) -> (r: Option<String>)
    ensures
        opt_str(r) == reported_language(name@),
{
    if name.unicode_len() > 0 && !(str_eq(name, "C") || str_eq(name, "POSIX")) {
        Some(prefix_before(name, '_'))
    } else {
        None
    }
}

/// The language a snapshot, when there is one, names.
pub open spec fn snapshot_choice(snapshot: Option<&LocaleSnapshot>) -> Option<Seq<char>> {
    match snapshot {
        Some(s) => snapshot_language(*s),
        None => None,
    }
}

/// The language the C library's answer for the environment's locale gives
/// (the locale's name, when the C library answered): its language when it
/// names a real locale, else English.
pub open spec fn system_language(answer: Option<Seq<char>>) -> Seq<char> {
    match answer {
        Some(name) => match reported_language(name) {
            Some(l) => l,
            None => "en"@,
        },
        None => "en"@,
    }
}

pub fn language_of_system_locale(answer: Option<&str>) -> (r: String)
    ensures
        r@ == system_language(
            match answer {
                Some(n) => Some(n@),
                None => None,
            },
        ),
{
    match answer {
        Some(name) => match language_of_reported_locale(name) {
            Some(l) => l,
            None => owned("en"),
        },
        None => owned("en"),
    }
}

/// The locale name carried by an answer of `setlocale`, read as text.
pub open spec fn answer_text(answer: Option<Seq<u8>>) -> Option<Seq<char>> {
    match answer {
        Some(bytes) => Some(utf8_lossy(bytes)),
        None => None,
    }
}

/// The system language: the one the start-up environment names, else the
/// one given by the C library's answer for the environment's locale.
pub open spec fn detected_language(
    snapshot: Option<&LocaleSnapshot>,
    answer: Option<Seq<u8>>,
) -> Seq<char> {
    match snapshot_choice(snapshot) {
        Some(l) => l,
        None => system_language(answer_text(answer)),
    }
}

/// The system language: the one the start-up environment names, else the
/// one the C library reports for the environment's locale, else English.
/// The C library is only asked when the environment names none.
pub fn detect_system_locale(snapshot: Option<&LocaleSnapshot>) -> (r: String)
    ensures
        snapshot_choice(snapshot) is Some ==> r@ == snapshot_choice(snapshot)->0,
        exists|answer: Option<Seq<u8>>| r@ == #[trigger] detected_language(snapshot, answer),
{
    if let Some(s) = snapshot {
        if let Some(l) = language_of_snapshot(s) {
            assert(l@ == detected_language(snapshot, None));
            return l;
        }
    }
    proof {
        reveal_strlit("");
    }
    let answer = setlocale_all("");
    match answer {
        Some(bytes) => {
            let name = lossy_string(&bytes);
            let r = language_of_system_locale(Some(name.as_str()));
            assert(r@ == detected_language(snapshot, Some(bytes@)));
            r
        },
        None => {
            let r = language_of_system_locale(None);
            assert(r@ == detected_language(snapshot, None));
            r
        },
    }
}

/// The language to switch to for a language setting: the system language
/// for "auto" (or an empty setting), else the setting itself.
pub fn language_to_apply(lang: &str, snapshot: Option<&LocaleSnapshot>) -> (r: String)
    ensures
        !is_auto(lang@) ==> r@ == lang@,
        is_auto(lang@) ==> (snapshot_choice(snapshot) is Some ==> r@ == snapshot_choice(
            snapshot,
        )->0),
        is_auto(lang@) ==> exists|answer: Option<Seq<u8>>|
            r@ == #[trigger] detected_language(snapshot, answer),
{
    if is_auto_language(lang) {
        detect_system_locale(snapshot)
    } else {
        owned(lang)
    }
}

/// The language the current translations were set up for: the application's
/// own choice when it is a concrete language, else the first non-empty of
/// `LANGUAGE`, `LC_ALL`, `LANG`, else English.
pub open spec fn hint_spec(
    current: Option<String>,
    language: Option<String>,
    lc_all: Option<String>,
    lang: Option<String>,
) -> Seq<char> {
    if current is Some && !is_auto(current->0@) {
        current->0@
    } else if nonempty_or_none(language) is Some {
        language->0@
    } else if nonempty_or_none(lc_all) is Some {
        lc_all->0@
    } else if nonempty_or_none(lang) is Some {
        lang->0@
    } else {
        "en"@
    }
}

pub fn language_hint(
    current: Option<String>,
    language: Option<String>,
    lc_all: Option<String>,
    lang: Option<String>,
) -> (r: String)
    ensures
        r@ == hint_spec(current, language, lc_all, lang),
{
    if let Some(c) = &current {
        if !is_auto_language(c.as_str()) {
            return owned(c.as_str());
        }
    }
    if let Some(l) = &language {
        if l.unicode_len() > 0 {
            return owned(l.as_str());
        }
    }
    if let Some(l) = &lc_all {
        if l.unicode_len() > 0 {
            return owned(l.as_str());
        }
    }
    if let Some(l) = &lang {
        if l.unicode_len() > 0 {
            return owned(l.as_str());
        }
    }
    owned("en")
}

// ------------------------------------------------------------ catalog directories
/// What the file system says about the places the application's catalogs may be.
#[derive(Clone, Debug, PartialEq, Eq)]
pub struct LocaleDirProbes {
    /// The build-time catalog directory, when set and present.
    pub build_dir: Option<String>,
    /// `/app/share/locale` exists (Flatpak).
    pub app_share_exists: bool,
    /// `$SNAP`, when set.
    pub snap: Option<String>,
    /// `$SNAP/usr/share/khushu/locale` exists.
    pub snap_app_locale_exists: bool,
    /// The canonical path of `target/locale`, when it exists (development tree).
    pub target_locale: Option<String>,
    /// `po` exists in the working directory.
    pub po_exists: bool,
}

pub open spec fn snap_app_dir(snap: Seq<char>) -> Seq<char> {
    snap + "/usr/share/khushu/locale"@
}

pub open spec fn snap_system_dir(snap: Seq<char>) -> Seq<char> {
    snap + "/usr/share/locale"@
}

pub fn snap_app_locale_dir(snap: &str) -> (r: String)
    ensures
        r@ == snap_app_dir(snap@),
{
    let mut r = owned(snap);
    append_str(&mut r, "/usr/share/khushu/locale");
    r
}

pub fn snap_system_locale_dir(snap: &str) -> (r: String)
    ensures
        r@ == snap_system_dir(snap@),
{
    let mut r = owned(snap);
    append_str(&mut r, "/usr/share/locale");
    r
}

/// The directory the application's own catalogs are bound to.
pub open spec fn locale_dir_spec(p: LocaleDirProbes) -> Seq<char> {
    if p.build_dir is Some {
        p.build_dir->0@
    } else if p.app_share_exists {
        "/app/share/locale"@
    } else if p.snap is Some {
        if p.snap_app_locale_exists {
            snap_app_dir(p.snap->0@)
        } else {
            snap_system_dir(p.snap->0@)
        }
    } else if p.target_locale is Some {
        p.target_locale->0@
    } else if p.po_exists {
        "po"@
    } else {
        "./po"@
    }
}

pub fn resolve_locale_dir(p: &LocaleDirProbes) -> (r: String)
    ensures
        r@ == locale_dir_spec(*p),
{
    if let Some(d) = &p.build_dir {
        return owned(d.as_str());
    }
    if p.app_share_exists {
        return owned("/app/share/locale");
    }
    if let Some(s) = &p.snap {
        return if p.snap_app_locale_exists {
            snap_app_locale_dir(s.as_str())
        } else {
            snap_system_locale_dir(s.as_str())
        };
    }
    if let Some(t) = &p.target_locale {
        return owned(t.as_str());
    }
    if p.po_exists {
        owned("po")
    } else {
        owned("./po")
    }
}

/// The directory holding the application's own copies of library catalogs.
pub open spec fn custom_dir_spec(
    locale_dir: Seq<char>,
    usr_custom_exists: bool,
    app_custom_exists: bool,
    snap: Option<Seq<char>>,
    snap_custom_exists: bool,
) -> Seq<char> {
    if locale_dir == "/usr/share/locale"@ && usr_custom_exists {
        "/usr/share/khushu/locale"@
    } else if locale_dir == "/app/share/locale"@ && app_custom_exists {
        "/app/share/khushu/locale"@
    } else if snap is Some && snap_custom_exists {
        snap_app_dir(snap->0)
    } else {
        locale_dir
    }
}

/// `custom_library_locale_dir`, given whether `/usr/share/khushu/locale`,
/// `/app/share/khushu/locale` and `$SNAP/usr/share/khushu/locale` exist.
pub fn custom_library_locale_dir(
    locale_dir: &str,
    usr_custom_exists: bool,
    app_custom_exists: bool,
    snap: Option<&str>,
    snap_custom_exists: bool,
) -> (r: String)
    ensures
        r@ == custom_dir_spec(
            locale_dir@,
            usr_custom_exists,
            app_custom_exists,
            match snap {
                Some(s) => Some(s@),
                None => None,
            },
            snap_custom_exists,
        ),
{
    if str_eq(locale_dir, "/usr/share/locale") && usr_custom_exists {
        owned("/usr/share/khushu/locale")
    } else if str_eq(locale_dir, "/app/share/locale") && app_custom_exists {
        owned("/app/share/khushu/locale")
    } else {
        match snap {
            Some(s) => if snap_custom_exists {
                snap_app_locale_dir(s)
            } else {
                owned(locale_dir)
            },
            None => owned(locale_dir),
        }
    }
}

/// Library domains whose catalogs the application ships itself.
pub open spec fn is_bundled_domain(domain: Seq<char>) -> bool {
    domain == "gtk40"@ || domain == "libadwaita"@
}

/// The directories searched, in order, for a library domain's catalog.
pub open spec fn library_dirs_spec(
    domain: Seq<char>,
    locale_dir: Seq<char>,
    custom_dir: Seq<char>,
    snap: Option<Seq<char>>,
) -> Seq<Seq<char>> {
    let head: Seq<Seq<char>> = if is_bundled_domain(domain) {
        seq![custom_dir]
    } else {
        Seq::empty()
    };
    let snap_part: Seq<Seq<char>> = match snap {
        Some(s) => seq![snap_system_dir(s)],
        None => Seq::empty(),
    };
    head + seq!["/usr/share/locale"@, "/usr/share/locale-langpack"@] + snap_part + seq![
        custom_dir,
        locale_dir,
    ]
}

pub fn library_dir_candidates(domain: &str, locale_dir: &str, custom_dir: &str, snap: Option<&str>) -> (v:
    Vec<String>)
    ensures
        strs(v@) == library_dirs_spec(
            domain@,
            locale_dir@,
            custom_dir@,
            match snap {
                Some(s) => Some(s@),
                None => None,
            },
        ),
{
    let mut v: Vec<String> = Vec::new();
    if str_eq(domain, "gtk40") || str_eq(domain, "libadwaita") {
        v.push(owned(custom_dir));
    }
    v.push(owned("/usr/share/locale"));
    v.push(owned("/usr/share/locale-langpack"));
    if let Some(s) = snap {
        v.push(snap_system_locale_dir(s));
    }
    v.push(owned(custom_dir));
    v.push(owned(locale_dir));
    assert(strs(v@) =~= library_dirs_spec(
        domain@,
        locale_dir@,
        custom_dir@,
        match snap {
            Some(s) => Some(s@),
            None => None,
        },
    ));
    v
}

/// The first directory flagged as holding the catalog, or `default`.
pub open spec fn first_flagged(dirs: Seq<Seq<char>>, has: Seq<bool>, default: Seq<char>) -> Seq<
    char,
>
    decreases dirs.len(),
{
    if dirs.len() == 0 || has.len() == 0 {
        default
    } else if has[0] {
        dirs[0]
    } else {
        first_flagged(dirs.drop_first(), has.drop_first(), default)
    }
}

pub fn first_with_catalog(dirs: &Vec<String>, has: &Vec<bool>, default: &str) -> (r: String)
    ensures
        r@ == first_flagged(strs(dirs@), has@, default@),
{
    let mut i: usize = 0;
    assert(strs(dirs@).skip(0) =~= strs(dirs@));
    assert(has@.skip(0) =~= has@);
    while i < dirs.len() && i < has.len()
        invariant
            i <= dirs@.len(),
            i <= has@.len(),
            first_flagged(strs(dirs@), has@, default@) == first_flagged(
                strs(dirs@).skip(i as int),
                has@.skip(i as int),
                default@,
            ),
        decreases dirs@.len() - i,
    {
        if has[i] {
            return owned(dirs[i].as_str());
        }
        assert(strs(dirs@).skip(i as int).drop_first() =~= strs(dirs@).skip(i + 1));
        assert(has@.skip(i as int).drop_first() =~= has@.skip(i + 1));
        i = i + 1;
    }
    assert(strs(dirs@).skip(i as int).len() == 0 || has@.skip(i as int).len() == 0);
    owned(default)
}

/// Binds a message domain to the directory holding its catalogs, with its
/// translations handed out in UTF-8.
pub fn bind_domain(domain: &str, dir: &str)
    requires
        !domain@.contains('\0'),
        !dir@.contains('\0'),
{
    bind_domain_dir(domain, dir);
    let _ = Utf8Domain::bind(domain);
}

// ------------------------------------------------------------ translation
/// The catalogs searched, in order, for a message.
pub open spec fn domains() -> Seq<Seq<char>> {
    seq!["khushu"@, "khushu-gtk"@, "libadwaita"@, "gtk40"@, "gtk"@]
}

/// A catalog answer counts when it differs from the key and is not empty.
pub open spec fn acceptable(key: Seq<char>, res: Seq<char>) -> bool {
    res != key && res.len() > 0
}

pub open spec fn first_acceptable(key: Seq<char>, ls: Seq<Seq<char>>) -> Option<Seq<char>>
    decreases ls.len(),
{
    if ls.len() == 0 {
        None
    } else if acceptable(key, ls[0]) {
        Some(ls[0])
    } else {
        first_acceptable(key, ls.drop_first())
    }
}

pub open spec fn is_credits(key: Seq<char>) -> bool {
    key == "translator-credits"@
}

/// The translation chosen from the catalog answers `ls` (in domain order):
/// the first acceptable one, else the key itself; the translator credits
/// come from the application catalog alone and default to the author.
pub open spec fn translation_choice(key: Seq<char>, ls: Seq<Seq<char>>) -> Seq<char> {
    if is_credits(key) {
        if ls.len() > 0 && acceptable(key, ls[0]) {
            ls[0]
        } else {
            "Djalel Oukid"@
        }
    } else {
        match first_acceptable(key, ls) {
            Some(t) => t,
            None => key,
        }
    }
}

pub fn pick_translation(key: &str, lookups: &Vec<String>) -> (r: String)
    ensures
        r@ == translation_choice(key@, strs(lookups@)),
{
    let credits = str_eq(key, "translator-credits");
    if credits {
        if lookups.len() > 0 && !str_eq(lookups[0].as_str(), key) && lookups[0].unicode_len() > 0 {
            return owned(lookups[0].as_str());
        }
        return owned("Djalel Oukid");
    }
    let mut i: usize = 0;
    assert(strs(lookups@).skip(0) =~= strs(lookups@));
    while i < lookups.len()
        invariant
            i <= lookups@.len(),
            !is_credits(key@),
            first_acceptable(key@, strs(lookups@)) == first_acceptable(
                key@,
                strs(lookups@).skip(i as int),
            ),
        decreases lookups@.len() - i,
    {
        assert(strs(lookups@).skip(i as int)[0] == lookups@[i as int]@);
        if !str_eq(lookups[i].as_str(), key) && lookups[i].unicode_len() > 0 {
            return owned(lookups[i].as_str());
        }
        assert(strs(lookups@).skip(i as int).drop_first() =~= strs(lookups@).skip(i + 1));
        i = i + 1;
    }
    assert(strs(lookups@).skip(i as int).len() == 0);
    owned(key)
}

fn domain_name(i: usize) -> (d: &'static str)
    requires
        i < 5,
    ensures
        d@ == domains()[i as int],
        !d@.contains('\0'),
{
    proof {
        reveal_strlit("khushu");
        reveal_strlit("khushu-gtk");
        reveal_strlit("libadwaita");
        reveal_strlit("gtk40");
        reveal_strlit("gtk");
    }
    if i == 0 {
        "khushu"
    } else if i == 1 {
        "khushu-gtk"
    } else if i == 2 {
        "libadwaita"
    } else if i == 3 {
        "gtk40"
    } else {
        "gtk"
    }
}

/// What holds of a translation whatever the catalogs say: the key itself
/// or a non-empty answer that differs from it; for the translator credits,
/// such an answer or the author's name.
pub open spec fn translation_outcome(key: Seq<char>, t: Seq<char>) -> bool {
    if is_credits(key) {
        acceptable(key, t) || t == "Djalel Oukid"@
    } else {
        t == key || acceptable(key, t)
    }
}

/// Translates a message: asks the catalogs in domain order (each bound to
/// UTF-8 output first; a domain gettext will not hand out in UTF-8 counts
/// as having no translation), stopping at the first acceptable answer, and
/// chooses as `translation_choice` says.
pub fn tr(key: &str, _lang: &str) -> (r: String)
    requires
        !key@.contains('\0'),
    ensures
        translation_outcome(key@, r@),
{
    let credits = str_eq(key, "translator-credits");
    let mut lookups: Vec<String> = Vec::new();
    let mut i: usize = 0;
    while i < 5
        invariant_except_break
            i <= 5,
            lookups@.len() == i,
        invariant
            !key@.contains('\0'),
        decreases 5 - i,
    {
        let res = match Utf8Domain::bind(domain_name(i)) {
            Some(domain) => dgettext_lookup(&domain, key),
            None => owned(key),
        };
        let found = !str_eq(res.as_str(), key) && res.unicode_len() > 0;
        lookups.push(res);
        if found || credits {
            break;
        }
        i = i + 1;
    }
    let r = pick_translation(key, &lookups);
    proof {
        lemma_choice_outcome(key@, strs(lookups@));
    }
    r
}

proof fn lemma_first_acceptable(key: Seq<char>, ls: Seq<Seq<char>>)
    ensures
        first_acceptable(key, ls) matches Some(t) ==> acceptable(key, t),
    decreases ls.len(),
{
    if ls.len() > 0 {
        lemma_first_acceptable(key, ls.drop_first());
    }
}

proof fn lemma_choice_outcome(key: Seq<char>, ls: Seq<Seq<char>>)
    ensures
        translation_outcome(key, translation_choice(key, ls)),
{
    lemma_first_acceptable(key, ls);
}

// ------------------------------------------------------------ laws
/// The translation chosen is the first acceptable catalog answer in domain
/// order, and the key itself when none is acceptable; the translator
/// credits take the application catalog's answer when acceptable, else the
/// author's name.
pub proof fn lemma_first_acceptable_answer_wins(key: Seq<char>, ls: Seq<Seq<char>>, j: int)
    ensures
        !is_credits(key) && 0 <= j < ls.len() && acceptable(key, ls[j]) && (forall|k: int|
            0 <= k < j ==> !acceptable(key, #[trigger] ls[k])) ==> translation_choice(key, ls)
            == ls[j],
        !is_credits(key) && (forall|k: int| 0 <= k < ls.len() ==> !acceptable(key, #[trigger] ls[k]))
            ==> translation_choice(key, ls) == key,
        is_credits(key) && ls.len() > 0 && acceptable(key, ls[0]) ==> translation_choice(key, ls)
            == ls[0],
        is_credits(key) && (ls.len() == 0 || !acceptable(key, ls[0])) ==> translation_choice(key, ls)
            == "Djalel Oukid"@,
    decreases ls.len(),
{
    if ls.len() > 0 && !is_credits(key) {
        lemma_first_acceptable_answer_wins(key, ls.drop_first(), j - 1);
        assert forall|k: int| 0 <= k < ls.drop_first().len() implies ls.drop_first()[k] == ls[k + 1] by {}
        if (forall|k: int| 0 <= k < ls.len() ==> !acceptable(key, #[trigger] ls[k])) {
            assert(!acceptable(key, ls[0]));
        }
    }
}

/// Locales are asked for in the order of `locale_attempts`, one at a time:
/// after a refusal the next one is asked for, the first accepted one is the
/// one applied, and when the last is refused the switch fails.
pub proof fn lemma_locale_attempts_in_order(lang: Seq<char>, tried: int)
    requires
        0 <= tried < locale_attempts(lang).len(),
    ensures
        locale_step_spec(lang, 0, false) == LocaleStepView::Try(locale_attempts(lang)[0]),
        locale_step_spec(lang, tried, false) == LocaleStepView::Try(locale_attempts(lang)[tried]),
        locale_step_spec(lang, tried + 1, true) == LocaleStepView::Applied(
            locale_attempts(lang)[tried],
        ),
        tried + 1 < locale_attempts(lang).len() ==> locale_step_spec(lang, tried + 1, false)
            == LocaleStepView::Try(locale_attempts(lang)[tried + 1]),
        locale_step_spec(lang, locale_attempts(lang).len() as int, false) == LocaleStepView::Failed,
{
}

/// Whatever the language, its locale fallbacks end with `en_US.UTF-8` and
/// then `C.UTF-8`, and begin with a locale of that language.
pub proof fn lemma_fallback_ends_with_english_then_c(lang: Seq<char>)
    ensures
        fallback_order(lang).len() >= 3,
        fallback_order(lang)[fallback_order(lang).len() - 2] == "en_US.UTF-8"@,
        fallback_order(lang).last() == "C.UTF-8"@,
        has_prefix_spec(fallback_order(lang)[0], lang),
{
    reveal_strlit("ar_DZ.UTF-8");
    reveal_strlit("fr_FR.UTF-8");
    reveal_strlit("es_ES.UTF-8");
    reveal_strlit("tr_TR.UTF-8");
    reveal_strlit("id_ID.UTF-8");
    reveal_strlit("ar");
    reveal_strlit("fr");
    reveal_strlit("es");
    reveal_strlit("tr");
    reveal_strlit("id");
    let f = fallback_order(lang)[0];
    if !(lang == "ar"@ || lang == "fr"@ || lang == "es"@ || lang == "tr"@ || lang == "id"@) {
        assert(f.take(lang.len() as int) =~= lang);
    } else {
        assert(f.take(lang.len() as int) =~= lang);
    }
}

pub open spec fn has_prefix_spec(s: Seq<char>, p: Seq<char>) -> bool {
    p.len() <= s.len() && s.take(p.len() as int) == p
}

/// The catalog directory candidates for a language are never empty, start
/// with its normalized name (English when it has none), and never repeat.
pub proof fn lemma_candidates_distinct(lang: Seq<char>)
    ensures
        candidates_spec(lang).len() >= 1,
        normalized_language(lang).len() > 0 ==> candidates_spec(lang)[0] == normalized_language(
            lang,
        ),
        normalized_language(lang).len() == 0 ==> candidates_spec(lang) == seq!["en"@],
        forall|i: int, j: int|
            0 <= i < j < candidates_spec(lang).len() ==> candidates_spec(lang)[i]
                != candidates_spec(lang)[j],
{
    let n = normalized_language(lang);
    if n.len() > 0 {
        if n.contains('_') {
            let k = choose|k: int| 0 <= k < n.len() && n[k] == '_';
            assert(replace_char(n, '_', '-')[k] == '-');
        } else if n.contains('-') {
            let k = choose|k: int| 0 <= k < n.len() && n[k] == '-';
            assert(replace_char(n, '-', '_')[k] == '_');
        }
    }
}

} // verus!
