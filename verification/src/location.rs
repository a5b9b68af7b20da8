//! Location handling: shortening geocoder place names, the city search
//! request and its answer, the steps of the desktop location portal
//! exchange, and the error messages shown when one of them fails.
use vstd::prelude::*;
use crate::text::{
    append_str, chars_of, find_char, find_from, is_ws, lemma_find_char, lemma_find_char_at, owned,
    string_of_range, trim, trim_end, trim_start, trimmed,
};

verus! {

/// One answer of the geocoding service.
#[derive(Clone, Debug, PartialEq, Eq)]
pub struct GeocodeResult {
    pub lat: String,
    pub lon: String,
    pub display_name: String,
}

// ------------------------------------------------------------ place names
/// The fields of `s` separated by `sep` (as `str::split`).
pub open spec fn split_fields(s: Seq<char>, sep: char) -> Seq<Seq<char>>
    decreases s.len(),
{
    let k = find_char(s, sep);
    if k < 0 {
        seq![s]
    } else {
        proof {
            lemma_find_char(s, sep);
        }
        seq![s.take(k)] + split_fields(s.skip(k + 1), sep)
    }
}

/// The non-empty entries of `ps`, in order.
pub open spec fn nonempty_parts(ps: Seq<Seq<char>>) -> Seq<Seq<char>>
    decreases ps.len(),
{
    if ps.len() == 0 {
        Seq::empty()
    } else if ps.last().len() > 0 {
        nonempty_parts(ps.drop_last()).push(ps.last())
    } else {
        nonempty_parts(ps.drop_last())
    }
}

/// The trimmed, non-empty comma-separated parts of a place name.
pub open spec fn place_parts(s: Seq<char>) -> Seq<Seq<char>> {
    nonempty_parts(split_fields(s, ',').map_values(|f: Seq<char>| trim(f)))
}

/// "City, Country": the first and last parts of a place name; the only
/// part when there is one; the name unchanged when it has none.
pub open spec fn short_city_spec(s: Seq<char>) -> Seq<char> {
    let p = place_parts(s);
    if p.len() >= 2 {
        p[0] + ", "@ + p.last()
    } else if p.len() == 1 {
        p[0]
    } else {
        s
    }
}

proof fn lemma_split_step(v: Seq<char>, start: int, k: int)
    requires
        0 <= start <= k <= v.len(),
        forall|j: int| start <= j < k ==> v[j] != ',',
        k < v.len() ==> v[k] == ',',
    ensures
        split_fields(v.skip(start), ',') == if k < v.len() {
            seq![v.subrange(start, k)] + split_fields(v.skip(k + 1), ',')
        } else {
            seq![v.subrange(start, k)]
        },
{
    let t = v.skip(start);
    assert forall|j: int| 0 <= j < k - start implies t[j] != ',' by {
        assert(t[j] == v[start + j]);
    }
    lemma_find_char_at(t, ',', k - start);
    assert(t.take(k - start) =~= v.subrange(start, k));
    if k < v.len() {
        assert(t.skip(k - start + 1) =~= v.skip(k + 1));
    } else {
        assert(t =~= v.subrange(start, k));
    }
}

/// Shortens a geocoder place name ("Algiers, Sidi M'Hamed, Algiers,
/// Algeria") to its first and last parts ("Algiers, Algeria").
pub fn short_city_with_country(display_name: &str) -> (r: String)
    ensures
        r@ == short_city_spec(display_name@),
{
    let v = chars_of(display_name);
    let n = v.len();
    let mut parts: Vec<String> = Vec::new();
    let mut start: usize = 0;
    let ghost mut done: Seq<Seq<char>> = Seq::empty();
    assert(v@.skip(0) =~= v@);
    loop
        invariant_except_break
            split_fields(v@, ',') == done + split_fields(v@.skip(start as int), ','),
        invariant
            v@ == display_name@,
            n == v@.len(),
            start <= n,
            parts@.map_values(|p: String| p@) == nonempty_parts(
                done.map_values(|f: Seq<char>| trim(f)),
            ),
        ensures
            split_fields(v@, ',') == done,
        decreases n - start,
    {
        let k = find_from(&v, ',', start);
        proof {
            lemma_split_step(v@, start as int, k as int);
        }
        let field = string_of_range(&v, start, k);
        let t = trimmed(field.as_str());
        let ghost old_done = done;
        let ghost old_parts = parts@.map_values(|p: String| p@);
        proof {
            done = done.push(v@.subrange(start as int, k as int));
            assert(done.map_values(|f: Seq<char>| trim(f)) =~= old_done.map_values(
                |f: Seq<char>| trim(f),
            ).push(t@));
            assert(done.map_values(|f: Seq<char>| trim(f)).drop_last() =~= old_done.map_values(
                |f: Seq<char>| trim(f),
            ));
        }
        if t.unicode_len() > 0 {
            parts.push(t);
            assert(parts@.map_values(|p: String| p@) =~= old_parts.push(t@));
        }
        if k == n {
            proof {
                assert(split_fields(v@, ',') =~= done);
            }
            break;
        }
        proof {
            assert(split_fields(v@, ',') =~= done + split_fields(v@.skip(k + 1), ','));
        }
        start = k + 1;
    }
    let ghost ps = parts@.map_values(|p: String| p@);
    assert(ps == place_parts(display_name@));
    let count = parts.len();
    if count >= 2 {
        let mut r = owned(parts[0].as_str());
        append_str(&mut r, ", ");
        append_str(&mut r, parts[count - 1].as_str());
        assert(ps[0] == parts@[0]@ && ps.last() == parts@[count - 1]@);
        r
    } else if count == 1 {
        assert(ps[0] == parts@[0]@);
        owned(parts[0].as_str())
    } else {
        owned(display_name)
    }
}

// ------------------------------------------------------------ shortening twice
/// `t` is left unchanged by trimming: empty, or without whitespace at either end.
pub open spec fn is_trimmed(t: Seq<char>) -> bool {
    t.len() == 0 || (!is_ws(t[0]) && !is_ws(t.last()))
}

proof fn lemma_trim_start_suffix(x: Seq<char>)
    ensures
        exists|k: int| 0 <= k <= x.len() && trim_start(x) == x.skip(k),
        trim_start(x).len() == 0 || !is_ws(trim_start(x)[0]),
    decreases x.len(),
{
    if x.len() > 0 && is_ws(x[0]) {
        lemma_trim_start_suffix(x.drop_first());
        let k = choose|k: int| 0 <= k <= x.drop_first().len() && trim_start(x.drop_first())
            == x.drop_first().skip(k);
        assert(x.drop_first().skip(k) =~= x.skip(k + 1));
    } else {
        assert(x.skip(0) =~= x);
    }
}

proof fn lemma_trim_end_prefix(y: Seq<char>)
    ensures
        exists|k: int| 0 <= k <= y.len() && trim_end(y) == y.take(k),
        trim_end(y).len() == 0 || !is_ws(trim_end(y).last()),
    decreases y.len(),
{
    if y.len() > 0 && is_ws(y.last()) {
        lemma_trim_end_prefix(y.drop_last());
        let k = choose|k: int| 0 <= k <= y.drop_last().len() && trim_end(y.drop_last())
            == y.drop_last().take(k);
        assert(y.drop_last().take(k) =~= y.take(k));
    } else {
        assert(y.take(y.len() as int) =~= y);
    }
}

/// Trimming gives trimmed text, made of characters of the original.
proof fn lemma_trim_shape(x: Seq<char>)
    ensures
        is_trimmed(trim(x)),
        forall|c: char| trim(x).contains(c) ==> x.contains(c),
{
    lemma_trim_start_suffix(x);
    let y = trim_start(x);
    lemma_trim_end_prefix(y);
    let k1 = choose|k: int| 0 <= k <= x.len() && trim_start(x) == x.skip(k);
    let k2 = choose|k: int| 0 <= k <= y.len() && trim_end(y) == y.take(k);
    let t = trim(x);
    if t.len() > 0 {
        assert(t[0] == y[0]);
    }
    assert forall|c: char| t.contains(c) implies x.contains(c) by {
        let j = choose|j: int| 0 <= j < t.len() && t[j] == c;
        assert(x[k1 + j] == c);
    }
}

proof fn lemma_trimmed_fixed(t: Seq<char>)
    requires
        is_trimmed(t),
    ensures
        trim(t) == t,
{
}

/// The fields of a text without `sep` are the text alone.
proof fn lemma_split_single(x: Seq<char>, sep: char)
    requires
        !x.contains(sep),
    ensures
        split_fields(x, sep) == seq![x],
{
    lemma_find_char(x, sep);
}

/// Every field lies within the text and holds no separator.
proof fn lemma_split_fields_shape(s: Seq<char>, sep: char)
    ensures
        forall|i: int|
            0 <= i < split_fields(s, sep).len() ==> !#[trigger] split_fields(s, sep)[i].contains(
                sep,
            ) && (forall|c: char| split_fields(s, sep)[i].contains(c) ==> s.contains(c)),
    decreases s.len(),
{
    lemma_find_char(s, sep);
    let k = find_char(s, sep);
    if k >= 0 {
        let rest = s.skip(k + 1);
        lemma_split_fields_shape(rest, sep);
        let head = s.take(k);
        assert(!head.contains(sep)) by {
            if head.contains(sep) {
                let j = choose|j: int| 0 <= j < head.len() && head[j] == sep;
                assert(s[j] == sep);
            }
        }
        assert forall|c: char| head.contains(c) implies s.contains(c) by {
            let j = choose|j: int| 0 <= j < head.len() && head[j] == c;
            assert(s[j] == c);
        }
        assert forall|c: char| rest.contains(c) implies s.contains(c) by {
            let j = choose|j: int| 0 <= j < rest.len() && rest[j] == c;
            assert(s[k + 1 + j] == c);
        }
        assert forall|i: int| 0 <= i < split_fields(s, sep).len() implies !#[trigger] split_fields(
            s,
            sep,
        )[i].contains(sep) && (forall|c: char| split_fields(s, sep)[i].contains(c) ==> s.contains(c)) by {
            if i > 0 {
                assert(split_fields(s, sep)[i] == split_fields(rest, sep)[i - 1]);
            }
        }
    }
}

/// The parts kept are non-empty entries of the list.
proof fn lemma_nonempty_parts_shape(ps: Seq<Seq<char>>)
    ensures
        forall|i: int|
            0 <= i < nonempty_parts(ps).len() ==> (#[trigger] nonempty_parts(ps)[i]).len() > 0
                && ps.contains(nonempty_parts(ps)[i]),
    decreases ps.len(),
{
    if ps.len() > 0 {
        lemma_nonempty_parts_shape(ps.drop_last());
        assert forall|i: int| 0 <= i < nonempty_parts(ps).len() implies (#[trigger] nonempty_parts(
            ps,
        )[i]).len() > 0 && ps.contains(nonempty_parts(ps)[i]) by {
            let q = nonempty_parts(ps.drop_last());
            if i < q.len() {
                let j = choose|j: int| 0 <= j < ps.drop_last().len() && ps.drop_last()[j] == q[i];
                assert(ps[j] == q[i]);
            } else {
                assert(ps[ps.len() - 1] == ps.last());
            }
        }
    }
}

/// Each part of a place name is non-empty, trimmed and free of commas.
proof fn lemma_place_parts_shape(s: Seq<char>)
    ensures
        forall|i: int|
            0 <= i < place_parts(s).len() ==> (#[trigger] place_parts(s)[i]).len() > 0 && is_trimmed(
                place_parts(s)[i],
            ) && !place_parts(s)[i].contains(','),
{
    let fs = split_fields(s, ',');
    let ts = fs.map_values(|f: Seq<char>| trim(f));
    lemma_split_fields_shape(s, ',');
    lemma_nonempty_parts_shape(ts);
    assert forall|i: int| 0 <= i < place_parts(s).len() implies (#[trigger] place_parts(s)[i]).len()
        > 0 && is_trimmed(place_parts(s)[i]) && !place_parts(s)[i].contains(',') by {
        let p = place_parts(s)[i];
        let j = choose|j: int| 0 <= j < ts.len() && ts[j] == p;
        assert(ts[j] == trim(fs[j]));
        assert(!fs[j].contains(','));
        lemma_trim_shape(fs[j]);
        if p.contains(',') {
            assert(fs[j].contains(','));
        }
    }
}

/// The place name made of two parts gives those two parts back.
proof fn lemma_parts_of_pair(a: Seq<char>, b: Seq<char>)
    requires
        a.len() > 0,
        b.len() > 0,
        is_trimmed(a),
        is_trimmed(b),
        !a.contains(','),
        !b.contains(','),
    ensures
        place_parts(a + ", "@ + b) == seq![a, b],
{
    reveal_strlit(", ");
    let s = a + ", "@ + b;
    let sb = seq![' '] + b;
    assert forall|j: int| 0 <= j < a.len() implies s[j] != ',' by {
        assert(s[j] == a[j]);
    }
    lemma_find_char_at(s, ',', a.len() as int);
    assert(s.take(a.len() as int) =~= a);
    assert(s.skip(a.len() as int + 1) =~= sb);
    assert(!sb.contains(',')) by {
        if sb.contains(',') {
            let j = choose|j: int| 0 <= j < sb.len() && sb[j] == ',';
            assert(b[j - 1] == ',');
        }
    }
    lemma_split_single(sb, ',');
    assert(split_fields(s, ',') =~= seq![a, sb]);
    assert(sb.drop_first() =~= b);
    assert(trim_start(sb) == trim_start(b));
    lemma_trimmed_fixed(a);
    lemma_trimmed_fixed(b);
    assert(trim(sb) == b);
    let ts = split_fields(s, ',').map_values(|f: Seq<char>| trim(f));
    assert(ts =~= seq![a, b]);
    assert(seq![a, b].drop_last() =~= seq![a]);
    assert(seq![a].drop_last() =~= Seq::<Seq<char>>::empty());
    assert(nonempty_parts(Seq::<Seq<char>>::empty()) =~= Seq::<Seq<char>>::empty());
    assert(seq![a].last() == a);
    assert(nonempty_parts(seq![a]) =~= Seq::<Seq<char>>::empty().push(a));
    assert(nonempty_parts(seq![a]) =~= seq![a]);
    assert(nonempty_parts(seq![a, b]) =~= seq![a, b]);
}

/// A one-part place name gives that part back.
proof fn lemma_parts_of_single(a: Seq<char>)
    requires
        a.len() > 0,
        is_trimmed(a),
        !a.contains(','),
    ensures
        place_parts(a) == seq![a],
{
    lemma_split_single(a, ',');
    lemma_trimmed_fixed(a);
    let ts = split_fields(a, ',').map_values(|f: Seq<char>| trim(f));
    assert(ts =~= seq![a]);
    assert(seq![a].drop_last() =~= Seq::<Seq<char>>::empty());
    assert(nonempty_parts(Seq::<Seq<char>>::empty()) =~= Seq::<Seq<char>>::empty());
    assert(seq![a].last() == a);
    assert(nonempty_parts(seq![a]) =~= Seq::<Seq<char>>::empty().push(a));
    assert(nonempty_parts(seq![a]) =~= seq![a]);
}

/// Shortening a place name twice gives what shortening it once gives, and
/// the shortened name's parts are the original's first and last parts (its
/// only part when it has one).
pub proof fn lemma_short_city_idempotent(s: Seq<char>)
    ensures
        short_city_spec(short_city_spec(s)) == short_city_spec(s),
        place_parts(s).len() >= 2 ==> place_parts(short_city_spec(s)) == seq![
            place_parts(s)[0],
            place_parts(s).last(),
        ],
        place_parts(s).len() == 1 ==> place_parts(short_city_spec(s)) == place_parts(s),
        place_parts(s).len() == 0 ==> short_city_spec(s) == s,
{
    let p = place_parts(s);
    lemma_place_parts_shape(s);
    if p.len() >= 2 {
        let a = p[0];
        let b = p.last();
        assert(b == p[p.len() - 1]);
        lemma_parts_of_pair(a, b);
    } else if p.len() == 1 {
        lemma_parts_of_single(p[0]);
    }
}

// ------------------------------------------------------------ city search
/// Bytes left as they are by URL encoding: ASCII letters, digits, `-._~`.
pub open spec fn is_unreserved(b: u8) -> bool {
    (48 <= b <= 57) || (65 <= b <= 90) || (97 <= b <= 122) || b == 45 || b == 46 || b == 95 || b
        == 126
}

/// Upper-case hexadecimal digit for `d < 16`.
pub open spec fn hex_digit(d: u8) -> char {
    if d < 10 {
        (48 + d) as char
    } else {
        (55 + d) as char
    }
}

/// Percent-encoding of a byte string: unreserved bytes as themselves,
/// every other byte as `%` and two upper-case hexadecimal digits.
pub open spec fn percent_encode(bytes: Seq<u8>) -> Seq<char>
    decreases bytes.len(),
{
    if bytes.len() == 0 {
        Seq::empty()
    } else {
        let b = bytes[0];
        let head: Seq<char> = if is_unreserved(b) {
            seq![b as char]
        } else {
            seq!['%', hex_digit(b / 16), hex_digit(b % 16)]
        };
        head + percent_encode(bytes.drop_first())
    }
}

/// `urlencoding::encode`: percent-encodes the UTF-8 bytes of `s`, keeping
/// ASCII letters, digits and `-`, `.`, `_`, `~` (as its documentation
/// says), with upper-case hexadecimal digits (as its source writes them).
#[verifier::external_body]
fn url_encode(s: &str) -> (r: String)
    ensures
        r@ == percent_encode(vstd::utf8::encode_utf8(s@)),
{
    urlencoding::encode(s).into_owned()
}

pub open spec fn search_url_spec(query: Seq<char>, lang: Seq<char>) -> Seq<char> {
    "https://nominatim.openstreetmap.org/search?q="@ + percent_encode(
        vstd::utf8::encode_utf8(query),
    ) + "&format=json&limit=1&accept-language="@ + lang
}

/// The geocoding request for a city search, answered in `lang`.
pub fn search_url(query: &str, lang: &str) -> (r: String)
    ensures
        r@ == search_url_spec(query@, lang@),
{
    let mut r = owned("https://nominatim.openstreetmap.org/search?q=");
    let encoded = url_encode(query);
    append_str(&mut r, encoded.as_str());
    append_str(&mut r, "&format=json&limit=1&accept-language=");
    append_str(&mut r, lang);
    r
}

/// Why a location request failed; each has the message shown to the user.
#[derive(Clone, Copy, Debug, PartialEq, Eq, Structural)]
pub enum LocationError {
    PortalUnavailable,
    AccessDenied,
    UpdatesUnavailable,
    Disconnected,
    TimedOut,
    NetworkWhileResolving,
    InvalidResponse,
    NoCityForCoordinates,
    NetworkError,
    CityNotFound,
}

pub open spec fn error_key(e: LocationError) -> Seq<char> {
    match e {
        LocationError::PortalUnavailable => "Location service unavailable. Please check system settings."@,
        LocationError::AccessDenied => "Location access denied or unavailable."@,
        LocationError::UpdatesUnavailable => "Failed to receive location updates."@,
        LocationError::Disconnected => "Location service disconnected unexpectedly."@,
        LocationError::TimedOut => "Location request timed out. Please check your system settings."@,
        LocationError::NetworkWhileResolving => "Network error while resolving city."@,
        LocationError::InvalidResponse => "Invalid response from location service."@,
        LocationError::NoCityForCoordinates => "Could not find city name for these coordinates."@,
        LocationError::NetworkError => "Network error. Please check your connection."@,
        LocationError::CityNotFound => "City not found. Please check the spelling."@,
    }
}

impl LocationError {
    /// The (untranslated) message for this failure.
    pub fn message_key(&self) -> (k: &'static str)
        ensures
            k@ == error_key(*self),
    {
        match self {
            LocationError::PortalUnavailable => "Location service unavailable. Please check system settings.",
            LocationError::AccessDenied => "Location access denied or unavailable.",
            LocationError::UpdatesUnavailable => "Failed to receive location updates.",
            LocationError::Disconnected => "Location service disconnected unexpectedly.",
            LocationError::TimedOut => "Location request timed out. Please check your system settings.",
            LocationError::NetworkWhileResolving => "Network error while resolving city.",
            LocationError::InvalidResponse => "Invalid response from location service.",
            LocationError::NoCityForCoordinates => "Could not find city name for these coordinates.",
            LocationError::NetworkError => "Network error. Please check your connection.",
            LocationError::CityNotFound => "City not found. Please check the spelling.",
        }
    }
}

/// The hit a city search keeps: the first answer, or "city not found".
pub fn first_search_hit(results: Vec<GeocodeResult>) -> (r: Result<GeocodeResult, LocationError>)
    ensures
        results@.len() == 0 ==> r == Err::<GeocodeResult, LocationError>(
            LocationError::CityNotFound,
        ),
        results@.len() > 0 ==> r == Ok::<GeocodeResult, LocationError>(results@[0]),
{
    let mut results = results;
    if results.len() == 0 {
        Err(LocationError::CityNotFound)
    } else {
        Ok(results.remove(0))
    }
}

/// The place name a reverse geocoding answer gives, or the failure when it
/// is empty.
pub fn reverse_geocode_name(display_name: String) -> (r: Result<String, LocationError>)
    ensures
        display_name@.len() == 0 ==> r == Err::<String, LocationError>(
            LocationError::NoCityForCoordinates,
        ),
        display_name@.len() > 0 ==> r == Ok::<String, LocationError>(display_name),
{
    if display_name.unicode_len() == 0 {
        Err(LocationError::NoCityForCoordinates)
    } else {
        Ok(display_name)
    }
}

// ------------------------------------------------------------ location portal
/// The steps of the location portal exchange.
#[derive(Clone, Copy, Debug, PartialEq, Eq, Structural)]
pub enum PortalStage {
    Connect,
    CreateSession,
    Subscribe,
    Start,
    AwaitFix,
}

/// How a step of the exchange ended.
#[derive(Clone, Copy, Debug, PartialEq, Eq, Structural)]
pub enum PortalEvent {
    Succeeded,
    Failed,
    /// A position arrived.
    Fix,
    /// The stream of positions ended without one.
    StreamEnded,
    /// No position came within the waiting time.
    TimedOut,
}

/// What to do next.
#[derive(Clone, Copy, Debug, PartialEq, Eq, Structural)]
pub enum PortalAction {
    Proceed(PortalStage),
    /// Give up with this error.
    Fail(LocationError),
    /// Close the session, then give up with this error.
    CloseAndFail(LocationError),
    /// Close the session, then resolve the position to a place name.
    CloseAndResolve,
}

pub open spec fn event_fits(stage: PortalStage, event: PortalEvent) -> bool {
    if stage == PortalStage::AwaitFix {
        event == PortalEvent::Fix || event == PortalEvent::StreamEnded || event
            == PortalEvent::TimedOut
    } else {
        event == PortalEvent::Succeeded || event == PortalEvent::Failed
    }
}

pub open spec fn portal_step_spec(stage: PortalStage, event: PortalEvent) -> PortalAction {
    match stage {
        PortalStage::Connect => if event == PortalEvent::Succeeded {
            PortalAction::Proceed(PortalStage::CreateSession)
        } else {
            PortalAction::Fail(LocationError::PortalUnavailable)
        },
        PortalStage::CreateSession => if event == PortalEvent::Succeeded {
            PortalAction::Proceed(PortalStage::Subscribe)
        } else {
            PortalAction::Fail(LocationError::AccessDenied)
        },
        PortalStage::Subscribe => if event == PortalEvent::Succeeded {
            PortalAction::Proceed(PortalStage::Start)
        } else {
            PortalAction::Fail(LocationError::UpdatesUnavailable)
        },
        PortalStage::Start => if event == PortalEvent::Succeeded {
            PortalAction::Proceed(PortalStage::AwaitFix)
        } else {
            PortalAction::Fail(LocationError::AccessDenied)
        },
        PortalStage::AwaitFix => if event == PortalEvent::Fix {
            PortalAction::CloseAndResolve
        } else if event == PortalEvent::StreamEnded {
            PortalAction::CloseAndFail(LocationError::Disconnected)
        } else {
            PortalAction::CloseAndFail(LocationError::TimedOut)
        },
    }
}

/// The decision after each step of the location portal exchange.
pub fn portal_step(stage: PortalStage, event: PortalEvent) -> (a: PortalAction)
    requires
        event_fits(stage, event),
    ensures
        a == portal_step_spec(stage, event),
{
    match stage {
        PortalStage::Connect => if event == PortalEvent::Succeeded {
            PortalAction::Proceed(PortalStage::CreateSession)
        } else {
            PortalAction::Fail(LocationError::PortalUnavailable)
        },
        PortalStage::CreateSession => if event == PortalEvent::Succeeded {
            PortalAction::Proceed(PortalStage::Subscribe)
        } else {
            PortalAction::Fail(LocationError::AccessDenied)
        },
        PortalStage::Subscribe => if event == PortalEvent::Succeeded {
            PortalAction::Proceed(PortalStage::Start)
        } else {
            PortalAction::Fail(LocationError::UpdatesUnavailable)
        },
        PortalStage::Start => if event == PortalEvent::Succeeded {
            PortalAction::Proceed(PortalStage::AwaitFix)
        } else {
            PortalAction::Fail(LocationError::AccessDenied)
        },
        PortalStage::AwaitFix => if event == PortalEvent::Fix {
            PortalAction::CloseAndResolve
        } else if event == PortalEvent::StreamEnded {
            PortalAction::CloseAndFail(LocationError::Disconnected)
        } else {
            PortalAction::CloseAndFail(LocationError::TimedOut)
        },
    }
}

/// The label of an automatically found position: the shortened place name
/// when reverse geocoding found one, else the coordinates as text.
pub fn auto_location_label(resolved: Result<String, LocationError>, coordinates: String) -> (r:
    String)
    ensures
        r@ == match resolved {
            Ok(name) => short_city_spec(name@),
            Err(_) => coordinates@,
        },
{
    match resolved {
        Ok(name) => short_city_with_country(name.as_str()),
        Err(_) => coordinates,
    }
}

// ------------------------------------------------------------ laws
/// A session that was opened is always closed before the exchange ends, and
/// one that was not yet started is never closed: closing happens exactly
/// when the waiting for a position ends.
pub proof fn lemma_portal_closes_only_after_start(stage: PortalStage, event: PortalEvent)
    requires
        event_fits(stage, event),
    ensures
        (portal_step_spec(stage, event) is CloseAndFail || portal_step_spec(stage, event) is CloseAndResolve)
            <==> stage == PortalStage::AwaitFix,
{
}

/// The position of a stage in the exchange.
pub open spec fn stage_rank(s: PortalStage) -> int {
    match s {
        PortalStage::Connect => 0,
        PortalStage::CreateSession => 1,
        PortalStage::Subscribe => 2,
        PortalStage::Start => 3,
        PortalStage::AwaitFix => 4,
    }
}

/// Every path through the exchange ends within five steps: each step either
/// moves to the next stage or ends the exchange.
pub proof fn lemma_portal_progresses(stage: PortalStage, event: PortalEvent)
    requires
        event_fits(stage, event),
    ensures
        portal_step_spec(stage, event) matches PortalAction::Proceed(next) ==> stage_rank(next)
            == stage_rank(stage) + 1,
{
}

/// A step that succeeded never ends the exchange: each stage before the
/// wait moves on to the next one when it succeeds and gives up with its own
/// error when it fails (the portal missing, access refused, no updates,
/// access refused to start); while waiting, a position is resolved, and an
/// ended stream or the waiting time running out closes the session with
/// its error.
pub proof fn lemma_portal_outcomes(stage: PortalStage)
    ensures
        stage != PortalStage::AwaitFix ==> (portal_step_spec(stage, PortalEvent::Succeeded) matches PortalAction::Proceed(next)
            && stage_rank(next) == stage_rank(stage) + 1),
        stage != PortalStage::AwaitFix ==> portal_step_spec(stage, PortalEvent::Failed) is Fail,
        portal_step_spec(PortalStage::Connect, PortalEvent::Failed) == PortalAction::Fail(
            LocationError::PortalUnavailable,
        ),
        portal_step_spec(PortalStage::CreateSession, PortalEvent::Failed) == PortalAction::Fail(
            LocationError::AccessDenied,
        ),
        portal_step_spec(PortalStage::Subscribe, PortalEvent::Failed) == PortalAction::Fail(
            LocationError::UpdatesUnavailable,
        ),
        portal_step_spec(PortalStage::Start, PortalEvent::Failed) == PortalAction::Fail(
            LocationError::AccessDenied,
        ),
        portal_step_spec(PortalStage::AwaitFix, PortalEvent::Fix) == PortalAction::CloseAndResolve,
        portal_step_spec(PortalStage::AwaitFix, PortalEvent::StreamEnded) == PortalAction::CloseAndFail(
            LocationError::Disconnected,
        ),
        portal_step_spec(PortalStage::AwaitFix, PortalEvent::TimedOut) == PortalAction::CloseAndFail(
            LocationError::TimedOut,
        ),
{
}

} // verus!
