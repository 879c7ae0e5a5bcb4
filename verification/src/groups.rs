//! Group classifiers: per-field matchers that recognize whether one
//! whitespace-delimited token belongs to their fixed-format grammar and
//! extract its typed value.
//!
//! Classifiers are tried in a fixed priority order (most specific first;
//! in particular runway visual range before plain visibility). A classifier
//! accepts a token only if the whole token matches its pattern; otherwise
//! it rejects and the next classifier is tried.

use vstd::prelude::*;

verus! {

// ---------------------------------------------------------------------------
// Character classes and decimal numbers
// ---------------------------------------------------------------------------
pub open spec fn is_digit_char(c: char) -> bool {
    '0' as u32 <= c as u32 && c as u32 <= '9' as u32
}

pub open spec fn is_upper_char(c: char) -> bool {
    'A' as u32 <= c as u32 && c as u32 <= 'Z' as u32
}

pub open spec fn digit_val(c: char) -> int {
    c as u32 - '0' as u32
}

pub open spec fn all_digits(s: Seq<char>) -> bool {
    forall|i: int| 0 <= i < s.len() ==> is_digit_char(#[trigger] s[i])
}

/// The value of a sequence of decimal digits, most significant first.
pub open spec fn num_val(s: Seq<char>) -> int
    decreases s.len(),
{
    if s.len() == 0 {
        0
    } else {
        num_val(s.drop_last()) * 10 + digit_val(s.last())
    }
}

pub open spec fn pow10(n: nat) -> int
    decreases n,
{
    if n == 0 {
        1
    } else {
        10 * pow10((n - 1) as nat)
    }
}

pub proof fn lemma_num_val_bound(s: Seq<char>)
    requires
        all_digits(s),
    ensures
        0 <= num_val(s) < pow10(s.len()),
    decreases s.len(),
{
    if s.len() > 0 {
        assert(all_digits(s.drop_last())) by {
            assert(forall|i: int|
                0 <= i < s.len() - 1 ==> #[trigger] s.drop_last()[i] == s[i]);
        }
        lemma_num_val_bound(s.drop_last());
        assert(is_digit_char(s.last()));
    }
}

/// Reads one character of a token.
pub fn tchar(t: &str, i: usize) -> (r: char)
    requires
        i < t@.len(),
    ensures
        r == t@[i as int],
{
    t.get_char(i)
}

pub fn is_digit(c: char) -> (r: bool)
    ensures
        r == is_digit_char(c),
{
    '0' <= c && c <= '9'
}

pub fn is_upper(c: char) -> (r: bool)
    ensures
        r == is_upper_char(c),
{
    'A' <= c && c <= 'Z'
}

/// Whether the characters of `t` in `[from, to)` are all decimal digits.
pub fn digits_in(t: &str, from: usize, to: usize) -> (r: bool)
    requires
        from <= to <= t@.len(),
    ensures
        r == all_digits(t@.subrange(from as int, to as int)),
{
    let ghost sub = t@.subrange(from as int, to as int);
    let mut i = from;
    while i < to
        invariant
            from <= i <= to <= t@.len(),
            sub == t@.subrange(from as int, to as int),
            forall|j: int| 0 <= j < i - from ==> is_digit_char(#[trigger] sub[j]),
        decreases to - i,
    {
        if !is_digit(t.get_char(i)) {
            assert(sub[i - from] == t@[i as int]);
            return false;
        }
        assert(sub[i - from] == t@[i as int]);
        i = i + 1;
    }
    true
}

/// The decimal value of the digits of `t` in `[from, to)`.
pub fn digits_val(t: &str, from: usize, to: usize) -> (r: u32)
    requires
        from <= to <= t@.len(),
        to - from <= 6,
        all_digits(t@.subrange(from as int, to as int)),
    ensures
        r == num_val(t@.subrange(from as int, to as int)),
        r < 1000000,
{
    let ghost sub = t@.subrange(from as int, to as int);
    proof {
        assert(pow10(0) == 1);
        assert(pow10(1) == 10);
        assert(pow10(2) == 100);
        assert(pow10(3) == 1000);
        assert(pow10(4) == 10000);
        assert(pow10(5) == 100000);
        assert(pow10(6) == 1000000);
    }
    let mut acc: u32 = 0;
    let mut i = from;
    while i < to
        invariant
            from <= i <= to <= t@.len(),
            to - from <= 6,
            sub == t@.subrange(from as int, to as int),
            all_digits(sub),
            acc == num_val(sub.take(i - from)),
            acc < pow10((i - from) as nat),
            pow10((i - from) as nat) <= pow10((to - from) as nat),
            pow10((to - from) as nat) <= 1000000,
        decreases to - i,
    {
        let c = t.get_char(i);
        assert(sub[i - from] == c);
        assert(is_digit_char(c));
        let d: u32 = c as u32 - '0' as u32;
        proof {
            let k = i - from;
            assert(sub.take(k + 1).drop_last() =~= sub.take(k));
            assert(sub.take(k + 1).last() == sub[k]);
        }
        acc = acc * 10 + d;
        proof {
            if i + 1 < to {
                assert(pow10((i + 1 - from) as nat) <= pow10((to - from) as nat)) by {
                    lemma_pow10_mono((i + 1 - from) as nat, (to - from) as nat);
                }
            }
        }
        i = i + 1;
    }
    proof {
        assert(sub.take(to - from) =~= sub);
    }
    acc
}

pub proof fn lemma_pow10_mono(a: nat, b: nat)
    requires
        a <= b,
    ensures
        pow10(a) <= pow10(b),
        pow10(a) >= 1,
    decreases b,
{
    if a == b {
        if b > 0 {
            lemma_pow10_mono((a - 1) as nat, (b - 1) as nat);
        }
    } else {
        lemma_pow10_mono(a, (b - 1) as nat);
    }
}

// ---------------------------------------------------------------------------
// The decoded group kinds
// ---------------------------------------------------------------------------
#[derive(Clone, Copy, PartialEq, Eq, Structural, Debug)]
pub enum SpeedUnit {
    Knots,
    MetersPerSecond,
    KilometersPerHour,
}

#[derive(Clone, Copy, PartialEq, Eq, Structural, Debug)]
pub enum WindDir {
    Degrees(u16),
    Variable,
}

#[derive(Clone, Copy, PartialEq, Eq, Structural, Debug)]
pub enum DistanceUnit {
    StatuteMiles,
    Meters,
    Feet,
}

#[derive(Clone, Copy, PartialEq, Eq, Structural, Debug)]
pub enum RvrTrend {
    Up,
    Down,
    NoChange,
}

#[derive(Clone, Copy, PartialEq, Eq, Structural, Debug)]
pub enum Intensity {
    Light,
    Heavy,
}

#[derive(Clone, Copy, PartialEq, Eq, Structural, Debug)]
pub enum Descriptor {
    Shallow,
    Partial,
    Patches,
    LowDrifting,
    Blowing,
    Showers,
    Thunderstorm,
    Freezing,
}

#[derive(Clone, Copy, PartialEq, Eq, Structural, Debug)]
pub enum Phenomenon {
    Drizzle,
    Rain,
    Snow,
    SnowGrains,
    IceCrystals,
    IcePellets,
    Hail,
    SmallHail,
    Unknown,
    Mist,
    Fog,
    Smoke,
    VolcanicAsh,
    Dust,
    Sand,
    Haze,
    DustWhirls,
    Squall,
    FunnelCloud,
    Sandstorm,
    Duststorm,
}

#[derive(Clone, Copy, PartialEq, Eq, Structural, Debug)]
pub enum CloudCover {
    Few,
    Scattered,
    Broken,
    Overcast,
    SkyClear,
    Clear,
    NoSignificantCloud,
    NoCloudDetected,
}

#[derive(Clone, Copy, PartialEq, Eq, Structural, Debug)]
pub enum CloudForm {
    Cumulonimbus,
    ToweringCumulus,
}

#[derive(Clone, Copy, PartialEq, Eq, Structural, Debug)]
pub enum PressureUnit {
    InchesHg,
    Hectopascal,
}

#[derive(Clone, Copy, PartialEq, Eq, Structural, Debug)]
pub enum TrendKind {
    NoSignificantChange,
    Becoming,
    Temporary,
}

/// One decoded weather code group. Each variant is self-contained and
/// carries only scalar or enumerated data.
///
/// Pressure values are held in hundredths of their unit, so `A3000`
/// decodes to 3000 hundredths of an inch of mercury (30.00 inHg) and
/// `Q1013` to 101300 hundredths of a hectopascal (1013.00 hPa).
#[derive(Debug, Clone, PartialEq, Eq)]
pub enum WeatherGroup {
    Wind { direction: WindDir, speed: u16, gust: Option<u16>, unit: SpeedUnit },
    Visibility { distance: u16, unit: DistanceUnit },
    RunwayVisualRange { runway: String, value: u16, unit: DistanceUnit, trend: Option<RvrTrend> },
    WeatherPhenomenon {
        intensity: Option<Intensity>,
        descriptor: Option<Descriptor>,
        precipitation: Vec<Phenomenon>,
    },
    CloudLayer { coverage: CloudCover, base_height: Option<u32>, form: Option<CloudForm> },
    Temperature { air: i16, dewpoint: i16 },
    Pressure { value_centi: u32, unit: PressureUnit },
    Trend { kind: TrendKind, detail: String },
    Unrecognized { raw_text: String },
}

/// The mathematical value of a [`WeatherGroup`]: strings become character
/// sequences.
pub enum GroupV {
    Wind { direction: WindDir, speed: u16, gust: Option<u16>, unit: SpeedUnit },
    Visibility { distance: u16, unit: DistanceUnit },
    RunwayVisualRange {
        runway: Seq<char>,
        value: u16,
        unit: DistanceUnit,
        trend: Option<RvrTrend>,
    },
    WeatherPhenomenon {
        intensity: Option<Intensity>,
        descriptor: Option<Descriptor>,
        precipitation: Seq<Phenomenon>,
    },
    CloudLayer { coverage: CloudCover, base_height: Option<u32>, form: Option<CloudForm> },
    Temperature { air: i16, dewpoint: i16 },
    Pressure { value_centi: u32, unit: PressureUnit },
    Trend { kind: TrendKind, detail: Seq<char> },
    Unrecognized { raw_text: Seq<char> },
}

impl View for WeatherGroup {
    type V = GroupV;

    open spec fn view(&self) -> GroupV {
        match self {
            WeatherGroup::Wind { direction, speed, gust, unit } => GroupV::Wind {
                direction: *direction,
                speed: *speed,
                gust: *gust,
                unit: *unit,
            },
            WeatherGroup::Visibility { distance, unit } => GroupV::Visibility {
                distance: *distance,
                unit: *unit,
            },
            WeatherGroup::RunwayVisualRange { runway, value, unit, trend } => {
                GroupV::RunwayVisualRange {
                    runway: runway@,
                    value: *value,
                    unit: *unit,
                    trend: *trend,
                }
            },
            WeatherGroup::WeatherPhenomenon { intensity, descriptor, precipitation } => {
                GroupV::WeatherPhenomenon {
                    intensity: *intensity,
                    descriptor: *descriptor,
                    precipitation: precipitation@,
                }
            },
            WeatherGroup::CloudLayer { coverage, base_height, form } => GroupV::CloudLayer {
                coverage: *coverage,
                base_height: *base_height,
                form: *form,
            },
            WeatherGroup::Temperature { air, dewpoint } => GroupV::Temperature {
                air: *air,
                dewpoint: *dewpoint,
            },
            WeatherGroup::Pressure { value_centi, unit } => GroupV::Pressure {
                value_centi: *value_centi,
                unit: *unit,
            },
            WeatherGroup::Trend { kind, detail } => GroupV::Trend {
                kind: *kind,
                detail: detail@,
            },
            WeatherGroup::Unrecognized { raw_text } => GroupV::Unrecognized {
                raw_text: raw_text@,
            },
        }
    }
}

/// Relates an executable classifier result to its specification.
pub open spec fn matches_opt(r: Option<WeatherGroup>, s: Option<GroupV>) -> bool {
    match r {
        Some(g) => s == Some(g@),
        None => s is None,
    }
}

// ---------------------------------------------------------------------------
// Station and timestamp patterns
// ---------------------------------------------------------------------------
/// A station identifier: exactly four uppercase letters.
pub open spec fn spec_station(t: Seq<char>) -> bool {
    t.len() == 4 && forall|i: int| 0 <= i < 4 ==> is_upper_char(#[trigger] t[i])
}

/// An observation timestamp: six digits followed by `Z`.
pub open spec fn spec_timestamp(t: Seq<char>) -> bool {
    t.len() == 7 && t[6] == 'Z' && forall|i: int| 0 <= i < 6 ==> is_digit_char(#[trigger] t[i])
}

pub fn is_station(t: &str) -> (r: bool)
    ensures
        r == spec_station(t@),
{
    let n = t.unicode_len();
    if n != 4 {
        return false;
    }
    let mut i: usize = 0;
    while i < 4
        invariant
            t@.len() == 4,
            i <= 4,
            forall|j: int| 0 <= j < i ==> is_upper_char(#[trigger] t@[j]),
        decreases 4 - i,
    {
        if !is_upper(t.get_char(i)) {
            return false;
        }
        i = i + 1;
    }
    true
}

pub fn is_timestamp(t: &str) -> (r: bool)
    ensures
        r == spec_timestamp(t@),
{
    let n = t.unicode_len();
    if n != 7 {
        return false;
    }
    if t.get_char(6) != 'Z' {
        return false;
    }
    let r = digits_in(t, 0, 6);
    proof {
        let sub = t@.subrange(0, 6);
        assert(forall|i: int| 0 <= i < 6 ==> #[trigger] sub[i] == t@[i]);
        if r {
            assert forall|i: int| 0 <= i < 6 implies is_digit_char(#[trigger] t@[i]) by {
                assert(is_digit_char(sub[i]));
            }
        } else {
            assert(!all_digits(sub));
            assert(spec_timestamp(t@) ==> all_digits(sub)) by {
                if spec_timestamp(t@) {
                    assert(forall|i: int|
                        0 <= i < 6 ==> is_digit_char(#[trigger] sub[i]));
                }
            }
        }
    }
    r
}

// ---------------------------------------------------------------------------
// Trend groups: NOSIG, BECMG, TEMPO
// ---------------------------------------------------------------------------
pub open spec fn spec_trend(t: Seq<char>) -> Option<GroupV> {
    if t.len() == 5 && t[0] == 'N' && t[1] == 'O' && t[2] == 'S' && t[3] == 'I' && t[4] == 'G' {
        Some(GroupV::Trend { kind: TrendKind::NoSignificantChange, detail: Seq::empty() })
    } else if t.len() == 5 && t[0] == 'B' && t[1] == 'E' && t[2] == 'C' && t[3] == 'M' && t[4]
        == 'G' {
        Some(GroupV::Trend { kind: TrendKind::Becoming, detail: Seq::empty() })
    } else if t.len() == 5 && t[0] == 'T' && t[1] == 'E' && t[2] == 'M' && t[3] == 'P' && t[4]
        == 'O' {
        Some(GroupV::Trend { kind: TrendKind::Temporary, detail: Seq::empty() })
    } else {
        None
    }
}

/// A single trend token carries no further detail, so `detail` is empty.
pub fn classify_trend(t: &str) -> (r: Option<WeatherGroup>)
    ensures
        matches_opt(r, spec_trend(t@)),
{
    let n = t.unicode_len();
    if n != 5 {
        return None;
    }
    let c0 = tchar(t, 0);
    let c1 = tchar(t, 1);
    let c2 = tchar(t, 2);
    let c3 = tchar(t, 3);
    let c4 = tchar(t, 4);
    if c0 == 'N' && c1 == 'O' && c2 == 'S' && c3 == 'I' && c4 == 'G' {
        Some(WeatherGroup::Trend { kind: TrendKind::NoSignificantChange, detail: String::new() })
    } else if c0 == 'B' && c1 == 'E' && c2 == 'C' && c3 == 'M' && c4 == 'G' {
        Some(WeatherGroup::Trend { kind: TrendKind::Becoming, detail: String::new() })
    } else if c0 == 'T' && c1 == 'E' && c2 == 'M' && c3 == 'P' && c4 == 'O' {
        Some(WeatherGroup::Trend { kind: TrendKind::Temporary, detail: String::new() })
    } else {
        None
    }
}

// ---------------------------------------------------------------------------
// Pressure groups: Adddd (hundredths of inHg), Qdddd (whole hPa)
// ---------------------------------------------------------------------------
pub open spec fn spec_pressure(t: Seq<char>) -> Option<GroupV> {
    if t.len() == 5 && t[0] == 'A' && all_digits(t.subrange(1, 5)) {
        Some(
            GroupV::Pressure {
                value_centi: num_val(t.subrange(1, 5)) as u32,
                unit: PressureUnit::InchesHg,
            },
        )
    } else if t.len() == 5 && t[0] == 'Q' && all_digits(t.subrange(1, 5)) {
        Some(
            GroupV::Pressure {
                value_centi: (100 * num_val(t.subrange(1, 5))) as u32,
                unit: PressureUnit::Hectopascal,
            },
        )
    } else {
        None
    }
}

pub fn classify_pressure(t: &str) -> (r: Option<WeatherGroup>)
    ensures
        matches_opt(r, spec_pressure(t@)),
{
    let n = t.unicode_len();
    if n != 5 {
        return None;
    }
    let c0 = tchar(t, 0);
    if c0 != 'A' && c0 != 'Q' {
        return None;
    }
    if !digits_in(t, 1, 5) {
        return None;
    }
    let v = digits_val(t, 1, 5);
    if c0 == 'A' {
        Some(WeatherGroup::Pressure { value_centi: v, unit: PressureUnit::InchesHg })
    } else {
        Some(WeatherGroup::Pressure { value_centi: 100 * v, unit: PressureUnit::Hectopascal })
    }
}

// ---------------------------------------------------------------------------
// Temperature / dewpoint: T/T' where each side is an optional M (minus)
// followed by one or two digits
// ---------------------------------------------------------------------------
/// First index `j >= i` with `s[j] == c`, or `s.len()` if there is none.
pub open spec fn first_idx(s: Seq<char>, c: char, i: int) -> int
    decreases s.len() - i,
    when 0 <= i <= s.len()
{
    if i >= s.len() {
        s.len() as int
    } else if s[i] == c {
        i
    } else {
        first_idx(s, c, i + 1)
    }
}

pub proof fn lemma_first_idx(s: Seq<char>, c: char, i: int)
    requires
        0 <= i <= s.len(),
    ensures
        i <= first_idx(s, c, i) <= s.len(),
        first_idx(s, c, i) < s.len() ==> s[first_idx(s, c, i)] == c,
        forall|j: int| i <= j < first_idx(s, c, i) ==> s[j] != c,
    decreases s.len() - i,
{
    if i < s.len() && s[i] != c {
        lemma_first_idx(s, c, i + 1);
    }
}

pub fn find_char(t: &str, c: char, from: usize) -> (r: usize)
    requires
        from <= t@.len(),
    ensures
        r == first_idx(t@, c, from as int),
{
    let n = t.unicode_len();
    let mut i = from;
    while i < n
        invariant
            from <= i <= n,
            n == t@.len(),
            first_idx(t@, c, from as int) == first_idx(t@, c, i as int),
        decreases n - i,
    {
        if t.get_char(i) == c {
            return i;
        }
        i = i + 1;
    }
    i
}

pub open spec fn temp_side(p: Seq<char>) -> Option<int> {
    if p.len() >= 1 && p[0] == 'M' {
        let d = p.subrange(1, p.len() as int);
        if 1 <= d.len() <= 2 && all_digits(d) {
            Some(-num_val(d))
        } else {
            None
        }
    } else if 1 <= p.len() <= 2 && all_digits(p) {
        Some(num_val(p))
    } else {
        None
    }
}

fn temp_side_val(t: &str, from: usize, to: usize) -> (r: Option<i16>)
    requires
        from <= to <= t@.len(),
    ensures
        match r {
            Some(v) => temp_side(t@.subrange(from as int, to as int)) == Some(v as int),
            None => temp_side(t@.subrange(from as int, to as int)) is None,
        },
{
    let ghost p = t@.subrange(from as int, to as int);
    if to - from >= 1 && tchar(t, from) == 'M' {
        assert(p[0] == 'M');
        let ghost d = p.subrange(1, p.len() as int);
        assert(d =~= t@.subrange(from + 1, to as int));
        if to - from >= 2 && to - from <= 3 && digits_in(t, from + 1, to) {
            let v = digits_val(t, from + 1, to);
            proof {
                lemma_num_val_bound(d);
                assert(pow10(0) == 1);
                assert(pow10(1) == 10);
                assert(pow10(2) == 100);
            }
            Some(0i16 - (v as i16))
        } else {
            None
        }
    } else if to - from >= 1 && to - from <= 2 && digits_in(t, from, to) {
        let v = digits_val(t, from, to);
        proof {
            lemma_num_val_bound(p);
            assert(pow10(0) == 1);
            assert(pow10(1) == 10);
            assert(pow10(2) == 100);
        }
        Some(v as i16)
    } else {
        None
    }
}

pub open spec fn spec_temperature(t: Seq<char>) -> Option<GroupV> {
    let k = first_idx(t, '/', 0);
    if k < t.len() && first_idx(t, '/', k + 1) == t.len() {
        match (temp_side(t.subrange(0, k)), temp_side(t.subrange(k + 1, t.len() as int))) {
            (Some(a), Some(d)) => Some(GroupV::Temperature { air: a as i16, dewpoint: d as i16 }),
            _ => None,
        }
    } else {
        None
    }
}

pub fn classify_temperature(t: &str) -> (r: Option<WeatherGroup>)
    ensures
        matches_opt(r, spec_temperature(t@)),
{
    let n = t.unicode_len();
    let k = find_char(t, '/', 0);
    proof {
        lemma_first_idx(t@, '/', 0);
    }
    if k >= n {
        return None;
    }
    let k2 = find_char(t, '/', k + 1);
    proof {
        lemma_first_idx(t@, '/', k as int + 1);
    }
    if k2 != n {
        return None;
    }
    let air = temp_side_val(t, 0, k);
    let dew = temp_side_val(t, k + 1, n);
    match (air, dew) {
        (Some(a), Some(d)) => {
            proof {
                let sa = temp_side(t@.subrange(0, k as int));
                let sd = temp_side(t@.subrange(k as int + 1, t@.len() as int));
                assert(sa == Some(a as int));
                assert(sd == Some(d as int));
            }
            Some(WeatherGroup::Temperature { air: a, dewpoint: d })
        },
        _ => None,
    }
}

// ---------------------------------------------------------------------------
// Cloud layers: FEW/SCT/BKN/OVC + three digits (hundreds of feet) +
// optional CB/TCU, or a bare sky-condition word
// ---------------------------------------------------------------------------
pub open spec fn cover3(a: char, b: char, c: char) -> Option<CloudCover> {
    if a == 'F' && b == 'E' && c == 'W' {
        Some(CloudCover::Few)
    } else if a == 'S' && b == 'C' && c == 'T' {
        Some(CloudCover::Scattered)
    } else if a == 'B' && b == 'K' && c == 'N' {
        Some(CloudCover::Broken)
    } else if a == 'O' && b == 'V' && c == 'C' {
        Some(CloudCover::Overcast)
    } else {
        None
    }
}

pub open spec fn bare_cover(t: Seq<char>) -> Option<CloudCover> {
    if t.len() == 3 && t[0] == 'S' && t[1] == 'K' && t[2] == 'C' {
        Some(CloudCover::SkyClear)
    } else if t.len() == 3 && t[0] == 'C' && t[1] == 'L' && t[2] == 'R' {
        Some(CloudCover::Clear)
    } else if t.len() == 3 && t[0] == 'N' && t[1] == 'S' && t[2] == 'C' {
        Some(CloudCover::NoSignificantCloud)
    } else if t.len() == 3 && t[0] == 'N' && t[1] == 'C' && t[2] == 'D' {
        Some(CloudCover::NoCloudDetected)
    } else {
        None
    }
}

pub open spec fn cloud_form_tail(r: Seq<char>) -> Option<Option<CloudForm>> {
    if r.len() == 0 {
        Some(None)
    } else if r.len() == 2 && r[0] == 'C' && r[1] == 'B' {
        Some(Some(CloudForm::Cumulonimbus))
    } else if r.len() == 3 && r[0] == 'T' && r[1] == 'C' && r[2] == 'U' {
        Some(Some(CloudForm::ToweringCumulus))
    } else {
        None
    }
}

pub open spec fn spec_cloud(t: Seq<char>) -> Option<GroupV> {
    match bare_cover(t) {
        Some(cov) => Some(GroupV::CloudLayer { coverage: cov, base_height: None, form: None }),
        None => {
            if t.len() >= 6 {
                match cover3(t[0], t[1], t[2]) {
                    Some(cov) => {
                        if all_digits(t.subrange(3, 6)) {
                            match cloud_form_tail(t.subrange(6, t.len() as int)) {
                                Some(f) => Some(
                                    GroupV::CloudLayer {
                                        coverage: cov,
                                        base_height: Some((100 * num_val(t.subrange(3, 6))) as u32),
                                        form: f,
                                    },
                                ),
                                None => None,
                            }
                        } else {
                            None
                        }
                    },
                    None => None,
                }
            } else {
                None
            }
        },
    }
}

pub fn classify_cloud(t: &str) -> (r: Option<WeatherGroup>)
    ensures
        matches_opt(r, spec_cloud(t@)),
{
    let n = t.unicode_len();
    if n == 3 {
        let c0 = tchar(t, 0);
        let c1 = tchar(t, 1);
        let c2 = tchar(t, 2);
        let cov = if c0 == 'S' && c1 == 'K' && c2 == 'C' {
            Some(CloudCover::SkyClear)
        } else if c0 == 'C' && c1 == 'L' && c2 == 'R' {
            Some(CloudCover::Clear)
        } else if c0 == 'N' && c1 == 'S' && c2 == 'C' {
            Some(CloudCover::NoSignificantCloud)
        } else if c0 == 'N' && c1 == 'C' && c2 == 'D' {
            Some(CloudCover::NoCloudDetected)
        } else {
            None
        };
        if let Some(cov) = cov {
            return Some(
                WeatherGroup::CloudLayer { coverage: cov, base_height: None, form: None },
            );
        }
    }
    if n < 6 {
        return None;
    }
    let c0 = tchar(t, 0);
    let c1 = tchar(t, 1);
    let c2 = tchar(t, 2);
    let cov = if c0 == 'F' && c1 == 'E' && c2 == 'W' {
        Some(CloudCover::Few)
    } else if c0 == 'S' && c1 == 'C' && c2 == 'T' {
        Some(CloudCover::Scattered)
    } else if c0 == 'B' && c1 == 'K' && c2 == 'N' {
        Some(CloudCover::Broken)
    } else if c0 == 'O' && c1 == 'V' && c2 == 'C' {
        Some(CloudCover::Overcast)
    } else {
        None
    };
    let cov = match cov {
        Some(c) => c,
        None => {
            return None;
        },
    };
    if !digits_in(t, 3, 6) {
        return None;
    }
    let height = 100 * digits_val(t, 3, 6);
    let ghost tail = t@.subrange(6, t@.len() as int);
    let form: Option<CloudForm> = if n == 6 {
        None
    } else if n == 8 && tchar(t, 6) == 'C' && tchar(t, 7) == 'B' {
        Some(CloudForm::Cumulonimbus)
    } else if n == 9 && tchar(t, 6) == 'T' && tchar(t, 7) == 'C' && tchar(t, 8) == 'U' {
        Some(CloudForm::ToweringCumulus)
    } else {
        return None;
    };
    Some(WeatherGroup::CloudLayer { coverage: cov, base_height: Some(height), form })
}

// ---------------------------------------------------------------------------
// Visibility: one or two digits + SM (statute miles), or four bare digits
// (meters)
// ---------------------------------------------------------------------------
pub open spec fn spec_visibility(t: Seq<char>) -> Option<GroupV> {
    if 3 <= t.len() <= 4 && t[t.len() - 2] == 'S' && t[t.len() - 1] == 'M' && all_digits(
        t.take(t.len() - 2),
    ) {
        Some(
            GroupV::Visibility {
                distance: num_val(t.take(t.len() - 2)) as u16,
                unit: DistanceUnit::StatuteMiles,
            },
        )
    } else if t.len() == 4 && all_digits(t) {
        Some(GroupV::Visibility { distance: num_val(t) as u16, unit: DistanceUnit::Meters })
    } else {
        None
    }
}

pub fn classify_visibility(t: &str) -> (r: Option<WeatherGroup>)
    ensures
        matches_opt(r, spec_visibility(t@)),
{
    let n = t.unicode_len();
    if n < 3 || n > 4 {
        return None;
    }
    proof {
        assert(pow10(0) == 1);
        assert(pow10(1) == 10);
        assert(pow10(2) == 100);
        assert(pow10(3) == 1000);
        assert(pow10(4) == 10000);
    }
    if tchar(t, n - 2) == 'S' && tchar(t, n - 1) == 'M' && digits_in(t, 0, n - 2) {
        proof {
            assert(t@.subrange(0, n - 2 as int) =~= t@.take(n - 2 as int));
            lemma_num_val_bound(t@.take(n - 2 as int));
        }
        let d = digits_val(t, 0, n - 2);
        return Some(
            WeatherGroup::Visibility { distance: d as u16, unit: DistanceUnit::StatuteMiles },
        );
    }
    if n == 4 && digits_in(t, 0, 4) {
        proof {
            assert(t@.subrange(0, 4) =~= t@);
            lemma_num_val_bound(t@);
        }
        let d = digits_val(t, 0, 4);
        return Some(WeatherGroup::Visibility { distance: d as u16, unit: DistanceUnit::Meters });
    }
    None
}

// ---------------------------------------------------------------------------
// Wind: direction (three digits or VRB), speed, optional gust, unit
// KT / MPS / KMH
// ---------------------------------------------------------------------------
pub open spec fn wind_dir_of(d: Seq<char>) -> Option<WindDir> {
    if d.len() == 3 && d[0] == 'V' && d[1] == 'R' && d[2] == 'B' {
        Some(WindDir::Variable)
    } else if d.len() == 3 && all_digits(d) {
        Some(WindDir::Degrees(num_val(d) as u16))
    } else {
        None
    }
}

pub open spec fn wind_rest(r: Seq<char>) -> Option<(u16, Option<u16>)> {
    if (r.len() == 2 || r.len() == 3) && all_digits(r) {
        Some((num_val(r) as u16, None))
    } else if (r.len() == 5 || r.len() == 6) && r[2] == 'G' && all_digits(r.take(2))
        && all_digits(r.subrange(3, r.len() as int)) {
        Some((num_val(r.take(2)) as u16, Some(num_val(r.subrange(3, r.len() as int)) as u16)))
    } else if (r.len() == 6 || r.len() == 7) && r[3] == 'G' && all_digits(r.take(3))
        && all_digits(r.subrange(4, r.len() as int)) {
        Some((num_val(r.take(3)) as u16, Some(num_val(r.subrange(4, r.len() as int)) as u16)))
    } else {
        None
    }
}

pub open spec fn wind_body(b: Seq<char>, u: SpeedUnit) -> Option<GroupV> {
    if b.len() >= 5 {
        match wind_dir_of(b.take(3)) {
            Some(dir) => match wind_rest(b.subrange(3, b.len() as int)) {
                Some(sg) => Some(
                    GroupV::Wind { direction: dir, speed: sg.0, gust: sg.1, unit: u },
                ),
                None => None,
            },
            None => None,
        }
    } else {
        None
    }
}

pub open spec fn spec_wind(t: Seq<char>) -> Option<GroupV> {
    let n = t.len() as int;
    if n >= 7 && t[n - 2] == 'K' && t[n - 1] == 'T' {
        wind_body(t.take(n - 2), SpeedUnit::Knots)
    } else if n >= 8 && t[n - 3] == 'M' && t[n - 2] == 'P' && t[n - 1] == 'S' {
        wind_body(t.take(n - 3), SpeedUnit::MetersPerSecond)
    } else if n >= 8 && t[n - 3] == 'K' && t[n - 2] == 'M' && t[n - 1] == 'H' {
        wind_body(t.take(n - 3), SpeedUnit::KilometersPerHour)
    } else {
        None
    }
}

fn wind_body_exec(t: &str, blen: usize, unit: SpeedUnit) -> (r: Option<WeatherGroup>)
    requires
        5 <= blen <= t@.len(),
    ensures
        matches_opt(r, wind_body(t@.take(blen as int), unit)),
{
    let ghost b = t@.take(blen as int);
    proof {
        assert(pow10(0) == 1);
        assert(pow10(1) == 10);
        assert(pow10(2) == 100);
        assert(pow10(3) == 1000);
    }
    let c0 = tchar(t, 0);
    let c1 = tchar(t, 1);
    let c2 = tchar(t, 2);
    proof {
        assert(b.take(3) =~= t@.subrange(0, 3));
    }
    let dir: WindDir = if c0 == 'V' && c1 == 'R' && c2 == 'B' {
        WindDir::Variable
    } else if digits_in(t, 0, 3) {
        proof {
            lemma_num_val_bound(t@.subrange(0, 3));
        }
        WindDir::Degrees(digits_val(t, 0, 3) as u16)
    } else {
        return None;
    };
    let ghost rest = b.subrange(3, b.len() as int);
    let rlen = blen - 3;
    proof {
        assert(rest.len() == rlen);
        assert(rest =~= t@.subrange(3, blen as int));
        assert(rest.take(2) =~= t@.subrange(3, 5));
        if rest.len() >= 3 {
            assert(rest.take(3) =~= t@.subrange(3, 6));
        }
        if rest.len() >= 3 {
            assert(rest.subrange(3, rest.len() as int) =~= t@.subrange(6, blen as int));
        }
        if rest.len() >= 4 {
            assert(rest.subrange(4, rest.len() as int) =~= t@.subrange(7, blen as int));
        }
        assert(forall|j: int| 0 <= j < rest.len() ==> #[trigger] rest[j] == t@[3 + j]);
    }
    if (rlen == 2 || rlen == 3) && digits_in(t, 3, blen) {
        proof {
            lemma_num_val_bound(t@.subrange(3, blen as int));
        }
        let sp = digits_val(t, 3, blen);
        return Some(
            WeatherGroup::Wind { direction: dir, speed: sp as u16, gust: None, unit },
        );
    }
    if (rlen == 5 || rlen == 6) && tchar(t, 5) == 'G' && digits_in(t, 3, 5) && digits_in(
        t,
        6,
        blen,
    ) {
        proof {
            lemma_num_val_bound(t@.subrange(3, 5));
            lemma_num_val_bound(t@.subrange(6, blen as int));
        }
        let sp = digits_val(t, 3, 5);
        let g = digits_val(t, 6, blen);
        return Some(
            WeatherGroup::Wind {
                direction: dir,
                speed: sp as u16,
                gust: Some(g as u16),
                unit,
            },
        );
    }
    if (rlen == 6 || rlen == 7) && tchar(t, 6) == 'G' && digits_in(t, 3, 6) && digits_in(
        t,
        7,
        blen,
    ) {
        proof {
            lemma_num_val_bound(t@.subrange(3, 6));
            lemma_num_val_bound(t@.subrange(7, blen as int));
        }
        let sp = digits_val(t, 3, 6);
        let g = digits_val(t, 7, blen);
        return Some(
            WeatherGroup::Wind {
                direction: dir,
                speed: sp as u16,
                gust: Some(g as u16),
                unit,
            },
        );
    }
    None
}

pub fn classify_wind(t: &str) -> (r: Option<WeatherGroup>)
    ensures
        matches_opt(r, spec_wind(t@)),
{
    let n = t.unicode_len();
    if n >= 7 && tchar(t, n - 2) == 'K' && tchar(t, n - 1) == 'T' {
        wind_body_exec(t, n - 2, SpeedUnit::Knots)
    } else if n >= 8 && tchar(t, n - 3) == 'M' && tchar(t, n - 2) == 'P' && tchar(t, n - 1)
        == 'S' {
        wind_body_exec(t, n - 3, SpeedUnit::MetersPerSecond)
    } else if n >= 8 && tchar(t, n - 3) == 'K' && tchar(t, n - 2) == 'M' && tchar(t, n - 1)
        == 'H' {
        wind_body_exec(t, n - 3, SpeedUnit::KilometersPerHour)
    } else {
        None
    }
}

// ---------------------------------------------------------------------------
// Runway visual range: R + two-digit runway + optional L/R/C + '/' + four
// digits + optional FT + optional /U, /D or /N trend
// ---------------------------------------------------------------------------
pub open spec fn rvr_trend_of(c: char) -> Option<RvrTrend> {
    if c == 'U' {
        Some(RvrTrend::Up)
    } else if c == 'D' {
        Some(RvrTrend::Down)
    } else if c == 'N' {
        Some(RvrTrend::NoChange)
    } else {
        None
    }
}

pub open spec fn rvr_tail(r: Seq<char>) -> Option<(DistanceUnit, Option<RvrTrend>)> {
    if r.len() == 0 {
        Some((DistanceUnit::Meters, None))
    } else if r.len() == 2 && r[0] == 'F' && r[1] == 'T' {
        Some((DistanceUnit::Feet, None))
    } else if r.len() == 2 && r[0] == '/' {
        match rvr_trend_of(r[1]) {
            Some(tr) => Some((DistanceUnit::Meters, Some(tr))),
            None => None,
        }
    } else if r.len() == 4 && r[0] == 'F' && r[1] == 'T' && r[2] == '/' {
        match rvr_trend_of(r[3]) {
            Some(tr) => Some((DistanceUnit::Feet, Some(tr))),
            None => None,
        }
    } else {
        None
    }
}

pub open spec fn spec_rvr(t: Seq<char>) -> Option<GroupV> {
    let n = t.len() as int;
    if n >= 8 && t[0] == 'R' && is_digit_char(t[1]) && is_digit_char(t[2]) {
        let slash: int = if t[3] == 'L' || t[3] == 'R' || t[3] == 'C' {
            4
        } else {
            3
        };
        if n >= slash + 5 && t[slash] == '/' && all_digits(t.subrange(slash + 1, slash + 5)) {
            match rvr_tail(t.subrange(slash + 5, n)) {
                Some(ut) => Some(
                    GroupV::RunwayVisualRange {
                        runway: t.subrange(1, slash),
                        value: num_val(t.subrange(slash + 1, slash + 5)) as u16,
                        unit: ut.0,
                        trend: ut.1,
                    },
                ),
                None => None,
            }
        } else {
            None
        }
    } else {
        None
    }
}

pub fn classify_rvr(t: &str) -> (r: Option<WeatherGroup>)
    ensures
        matches_opt(r, spec_rvr(t@)),
{
    let n = t.unicode_len();
    if n < 8 {
        return None;
    }
    if tchar(t, 0) != 'R' || !is_digit(tchar(t, 1)) || !is_digit(tchar(t, 2)) {
        return None;
    }
    let c3 = tchar(t, 3);
    let slash: usize = if c3 == 'L' || c3 == 'R' || c3 == 'C' {
        4
    } else {
        3
    };
    if n < slash + 5 {
        return None;
    }
    if tchar(t, slash) != '/' {
        return None;
    }
    if !digits_in(t, slash + 1, slash + 5) {
        return None;
    }
    proof {
        lemma_num_val_bound(t@.subrange(slash as int + 1, slash as int + 5));
        assert(pow10(0) == 1);
        assert(pow10(1) == 10);
        assert(pow10(2) == 100);
        assert(pow10(3) == 1000);
        assert(pow10(4) == 10000);
    }
    let value = digits_val(t, slash + 1, slash + 5);
    let ghost tail = t@.subrange(slash as int + 5, t@.len() as int);
    let tlen = n - (slash + 5);
    proof {
        assert(forall|j: int| 0 <= j < tail.len() ==> #[trigger] tail[j] == t@[slash + 5 + j]);
    }
    let unit_trend: (DistanceUnit, Option<RvrTrend>) = if tlen == 0 {
        (DistanceUnit::Meters, None)
    } else if tlen == 2 && tchar(t, slash + 5) == 'F' && tchar(t, slash + 6) == 'T' {
        (DistanceUnit::Feet, None)
    } else if tlen == 2 && tchar(t, slash + 5) == '/' {
        let tc = tchar(t, slash + 6);
        if tc == 'U' {
            (DistanceUnit::Meters, Some(RvrTrend::Up))
        } else if tc == 'D' {
            (DistanceUnit::Meters, Some(RvrTrend::Down))
        } else if tc == 'N' {
            (DistanceUnit::Meters, Some(RvrTrend::NoChange))
        } else {
            return None;
        }
    } else if tlen == 4 && tchar(t, slash + 5) == 'F' && tchar(t, slash + 6) == 'T' && tchar(
        t,
        slash + 7,
    ) == '/' {
        let tc = tchar(t, slash + 8);
        if tc == 'U' {
            (DistanceUnit::Feet, Some(RvrTrend::Up))
        } else if tc == 'D' {
            (DistanceUnit::Feet, Some(RvrTrend::Down))
        } else if tc == 'N' {
            (DistanceUnit::Feet, Some(RvrTrend::NoChange))
        } else {
            return None;
        }
    } else {
        return None;
    };
    let runway = t.substring_char(1, slash).to_owned();
    Some(
        WeatherGroup::RunwayVisualRange {
            runway,
            value: value as u16,
            unit: unit_trend.0,
            trend: unit_trend.1,
        },
    )
}

// ---------------------------------------------------------------------------
// Weather phenomena: optional +/- intensity, optional two-letter
// descriptor, then two-letter phenomenon codes
// ---------------------------------------------------------------------------
pub open spec fn intensity_of(c: char) -> Option<Intensity> {
    if c == '-' {
        Some(Intensity::Light)
    } else if c == '+' {
        Some(Intensity::Heavy)
    } else {
        None
    }
}

pub open spec fn desc_of(a: char, b: char) -> Option<Descriptor> {
    if a == 'M' && b == 'I' {
        Some(Descriptor::Shallow)
    } else if a == 'P' && b == 'R' {
        Some(Descriptor::Partial)
    } else if a == 'B' && b == 'C' {
        Some(Descriptor::Patches)
    } else if a == 'D' && b == 'R' {
        Some(Descriptor::LowDrifting)
    } else if a == 'B' && b == 'L' {
        Some(Descriptor::Blowing)
    } else if a == 'S' && b == 'H' {
        Some(Descriptor::Showers)
    } else if a == 'T' && b == 'S' {
        Some(Descriptor::Thunderstorm)
    } else if a == 'F' && b == 'Z' {
        Some(Descriptor::Freezing)
    } else {
        None
    }
}

pub open spec fn phen_of(a: char, b: char) -> Option<Phenomenon> {
    if a == 'D' && b == 'Z' {
        Some(Phenomenon::Drizzle)
    } else if a == 'R' && b == 'A' {
        Some(Phenomenon::Rain)
    } else if a == 'S' && b == 'N' {
        Some(Phenomenon::Snow)
    } else if a == 'S' && b == 'G' {
        Some(Phenomenon::SnowGrains)
    } else if a == 'I' && b == 'C' {
        Some(Phenomenon::IceCrystals)
    } else if a == 'P' && b == 'L' {
        Some(Phenomenon::IcePellets)
    } else if a == 'G' && b == 'R' {
        Some(Phenomenon::Hail)
    } else if a == 'G' && b == 'S' {
        Some(Phenomenon::SmallHail)
    } else if a == 'U' && b == 'P' {
        Some(Phenomenon::Unknown)
    } else if a == 'B' && b == 'R' {
        Some(Phenomenon::Mist)
    } else if a == 'F' && b == 'G' {
        Some(Phenomenon::Fog)
    } else if a == 'F' && b == 'U' {
        Some(Phenomenon::Smoke)
    } else if a == 'V' && b == 'A' {
        Some(Phenomenon::VolcanicAsh)
    } else if a == 'D' && b == 'U' {
        Some(Phenomenon::Dust)
    } else if a == 'S' && b == 'A' {
        Some(Phenomenon::Sand)
    } else if a == 'H' && b == 'Z' {
        Some(Phenomenon::Haze)
    } else if a == 'P' && b == 'O' {
        Some(Phenomenon::DustWhirls)
    } else if a == 'S' && b == 'Q' {
        Some(Phenomenon::Squall)
    } else if a == 'F' && b == 'C' {
        Some(Phenomenon::FunnelCloud)
    } else if a == 'S' && b == 'S' {
        Some(Phenomenon::Sandstorm)
    } else if a == 'D' && b == 'S' {
        Some(Phenomenon::Duststorm)
    } else {
        None
    }
}

fn desc_code(a: char, b: char) -> (r: Option<Descriptor>)
    ensures
        r == desc_of(a, b),
{
    if a == 'M' && b == 'I' {
        Some(Descriptor::Shallow)
    } else if a == 'P' && b == 'R' {
        Some(Descriptor::Partial)
    } else if a == 'B' && b == 'C' {
        Some(Descriptor::Patches)
    } else if a == 'D' && b == 'R' {
        Some(Descriptor::LowDrifting)
    } else if a == 'B' && b == 'L' {
        Some(Descriptor::Blowing)
    } else if a == 'S' && b == 'H' {
        Some(Descriptor::Showers)
    } else if a == 'T' && b == 'S' {
        Some(Descriptor::Thunderstorm)
    } else if a == 'F' && b == 'Z' {
        Some(Descriptor::Freezing)
    } else {
        None
    }
}

fn phen_code(a: char, b: char) -> (r: Option<Phenomenon>)
    ensures
        r == phen_of(a, b),
{
    if a == 'D' && b == 'Z' {
        Some(Phenomenon::Drizzle)
    } else if a == 'R' && b == 'A' {
        Some(Phenomenon::Rain)
    } else if a == 'S' && b == 'N' {
        Some(Phenomenon::Snow)
    } else if a == 'S' && b == 'G' {
        Some(Phenomenon::SnowGrains)
    } else if a == 'I' && b == 'C' {
        Some(Phenomenon::IceCrystals)
    } else if a == 'P' && b == 'L' {
        Some(Phenomenon::IcePellets)
    } else if a == 'G' && b == 'R' {
        Some(Phenomenon::Hail)
    } else if a == 'G' && b == 'S' {
        Some(Phenomenon::SmallHail)
    } else if a == 'U' && b == 'P' {
        Some(Phenomenon::Unknown)
    } else if a == 'B' && b == 'R' {
        Some(Phenomenon::Mist)
    } else if a == 'F' && b == 'G' {
        Some(Phenomenon::Fog)
    } else if a == 'F' && b == 'U' {
        Some(Phenomenon::Smoke)
    } else if a == 'V' && b == 'A' {
        Some(Phenomenon::VolcanicAsh)
    } else if a == 'D' && b == 'U' {
        Some(Phenomenon::Dust)
    } else if a == 'S' && b == 'A' {
        Some(Phenomenon::Sand)
    } else if a == 'H' && b == 'Z' {
        Some(Phenomenon::Haze)
    } else if a == 'P' && b == 'O' {
        Some(Phenomenon::DustWhirls)
    } else if a == 'S' && b == 'Q' {
        Some(Phenomenon::Squall)
    } else if a == 'F' && b == 'C' {
        Some(Phenomenon::FunnelCloud)
    } else if a == 'S' && b == 'S' {
        Some(Phenomenon::Sandstorm)
    } else if a == 'D' && b == 'S' {
        Some(Phenomenon::Duststorm)
    } else {
        None
    }
}

/// The phenomenon codes written in `t` from index `i` on, two characters
/// each; `None` if anything else follows.
pub open spec fn spec_phen_list(t: Seq<char>, i: int) -> Option<Seq<Phenomenon>>
    decreases t.len() - i,
    when 0 <= i <= t.len()
{
    if i == t.len() {
        Some(Seq::empty())
    } else if i + 2 <= t.len() {
        match phen_of(t[i], t[i + 1]) {
            Some(p) => match spec_phen_list(t, i + 2) {
                Some(rest) => Some(seq![p] + rest),
                None => None,
            },
            None => None,
        }
    } else {
        None
    }
}

fn phen_list(t: &str, i: usize) -> (r: Option<Vec<Phenomenon>>)
    requires
        i <= t@.len(),
    ensures
        match r {
            Some(v) => spec_phen_list(t@, i as int) == Some(v@),
            None => spec_phen_list(t@, i as int) is None,
        },
    decreases t@.len() - i,
{
    let n = t.unicode_len();
    if i == n {
        return Some(Vec::new());
    }
    if n - i < 2 {
        return None;
    }
    match phen_code(tchar(t, i), tchar(t, i + 1)) {
        Some(p) => match phen_list(t, i + 2) {
            Some(mut rest) => {
                rest.insert(0, p);
                Some(rest)
            },
            None => None,
        },
        None => None,
    }
}

pub open spec fn spec_weather(t: Seq<char>) -> Option<GroupV> {
    let start: int = if t.len() >= 1 && intensity_of(t[0]) is Some {
        1
    } else {
        0
    };
    let intensity: Option<Intensity> = if start == 1 {
        intensity_of(t[0])
    } else {
        None
    };
    if t.len() >= start + 2 {
        match desc_of(t[start], t[start + 1]) {
            Some(d) => match spec_phen_list(t, start + 2) {
                Some(ps) => Some(
                    GroupV::WeatherPhenomenon {
                        intensity,
                        descriptor: Some(d),
                        precipitation: ps,
                    },
                ),
                None => None,
            },
            None => match spec_phen_list(t, start) {
                Some(ps) => if ps.len() > 0 {
                    Some(
                        GroupV::WeatherPhenomenon {
                            intensity,
                            descriptor: None,
                            precipitation: ps,
                        },
                    )
                } else {
                    None
                },
                None => None,
            },
        }
    } else {
        None
    }
}

pub fn classify_weather(t: &str) -> (r: Option<WeatherGroup>)
    ensures
        matches_opt(r, spec_weather(t@)),
{
    let n = t.unicode_len();
    let mut start: usize = 0;
    let mut intensity: Option<Intensity> = None;
    if n >= 1 {
        let c0 = tchar(t, 0);
        if c0 == '-' {
            start = 1;
            intensity = Some(Intensity::Light);
        } else if c0 == '+' {
            start = 1;
            intensity = Some(Intensity::Heavy);
        }
    }
    if n < start + 2 {
        return None;
    }
    match desc_code(tchar(t, start), tchar(t, start + 1)) {
        Some(d) => match phen_list(t, start + 2) {
            Some(ps) => Some(
                WeatherGroup::WeatherPhenomenon {
                    intensity,
                    descriptor: Some(d),
                    precipitation: ps,
                },
            ),
            None => None,
        },
        None => match phen_list(t, start) {
            Some(ps) => if ps.len() > 0 {
                Some(
                    WeatherGroup::WeatherPhenomenon {
                        intensity,
                        descriptor: None,
                        precipitation: ps,
                    },
                )
            } else {
                None
            },
            None => None,
        },
    }
}

// ---------------------------------------------------------------------------
// The fixed classifier priority order
// ---------------------------------------------------------------------------
/// The decoded meaning of one token: classifiers are tried most specific
/// first, runway visual range before plain visibility; `None` means no
/// classifier accepts the token.
pub open spec fn spec_classify(t: Seq<char>) -> Option<GroupV> {
    if spec_trend(t) is Some {
        spec_trend(t)
    } else if spec_rvr(t) is Some {
        spec_rvr(t)
    } else if spec_wind(t) is Some {
        spec_wind(t)
    } else if spec_visibility(t) is Some {
        spec_visibility(t)
    } else if spec_cloud(t) is Some {
        spec_cloud(t)
    } else if spec_temperature(t) is Some {
        spec_temperature(t)
    } else if spec_pressure(t) is Some {
        spec_pressure(t)
    } else {
        spec_weather(t)
    }
}

/// Tries each group classifier on one token, in the fixed priority order.
pub fn try_classify(t: &str) -> (r: Option<WeatherGroup>)
    ensures
        matches_opt(r, spec_classify(t@)),
{
    if let Some(g) = classify_trend(t) {
        return Some(g);
    }
    if let Some(g) = classify_rvr(t) {
        return Some(g);
    }
    if let Some(g) = classify_wind(t) {
        return Some(g);
    }
    if let Some(g) = classify_visibility(t) {
        return Some(g);
    }
    if let Some(g) = classify_cloud(t) {
        return Some(g);
    }
    if let Some(g) = classify_temperature(t) {
        return Some(g);
    }
    if let Some(g) = classify_pressure(t) {
        return Some(g);
    }
    classify_weather(t)
}

} // verus!
