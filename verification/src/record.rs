//! Conversion of a decoded observation into a tree value, so the decoded
//! record can run through the flattener and the tabular writer like any
//! other nested value.
//!
//! Paths follow the record's shape: `station`, `timestamp`, `remarks`
//! appear when present, and each group flattens under
//! `groups.<index>.<kind>.<field>`.

use vstd::prelude::*;

use crate::assemble::{ObsV, Observation};
use crate::groups::{
    CloudCover, CloudForm, Descriptor, DistanceUnit, GroupV, Intensity, Phenomenon,
    PressureUnit, RvrTrend, SpeedUnit, TrendKind, WeatherGroup, WindDir,
};
use crate::tree::{
    arr_view, dec_str, int_str, lemma_arr_view_len, lemma_obj_view_len, obj_view, tree_view,
    u64_to_string, i64_to_string, JsonValue, TreeV,
};

verus! {

pub open spec fn speed_unit_code(u: SpeedUnit) -> Seq<char> {
    match u {
        SpeedUnit::Knots => seq!['K', 'T'],
        SpeedUnit::MetersPerSecond => seq!['M', 'P', 'S'],
        SpeedUnit::KilometersPerHour => seq!['K', 'M', 'H'],
    }
}

pub open spec fn distance_unit_code(u: DistanceUnit) -> Seq<char> {
    match u {
        DistanceUnit::StatuteMiles => seq!['S', 'M'],
        DistanceUnit::Meters => seq!['M'],
        DistanceUnit::Feet => seq!['F', 'T'],
    }
}

pub open spec fn pressure_unit_code(u: PressureUnit) -> Seq<char> {
    match u {
        PressureUnit::InchesHg => seq!['i', 'n', 'H', 'g'],
        PressureUnit::Hectopascal => seq!['h', 'P', 'a'],
    }
}

pub open spec fn cover_code(c: CloudCover) -> Seq<char> {
    match c {
        CloudCover::Few => seq!['F', 'E', 'W'],
        CloudCover::Scattered => seq!['S', 'C', 'T'],
        CloudCover::Broken => seq!['B', 'K', 'N'],
        CloudCover::Overcast => seq!['O', 'V', 'C'],
        CloudCover::SkyClear => seq!['S', 'K', 'C'],
        CloudCover::Clear => seq!['C', 'L', 'R'],
        CloudCover::NoSignificantCloud => seq!['N', 'S', 'C'],
        CloudCover::NoCloudDetected => seq!['N', 'C', 'D'],
    }
}

pub open spec fn form_code(f: CloudForm) -> Seq<char> {
    match f {
        CloudForm::Cumulonimbus => seq!['C', 'B'],
        CloudForm::ToweringCumulus => seq!['T', 'C', 'U'],
    }
}

pub open spec fn trend_code(k: TrendKind) -> Seq<char> {
    match k {
        TrendKind::NoSignificantChange => seq!['N', 'O', 'S', 'I', 'G'],
        TrendKind::Becoming => seq!['B', 'E', 'C', 'M', 'G'],
        TrendKind::Temporary => seq!['T', 'E', 'M', 'P', 'O'],
    }
}

pub open spec fn rvr_trend_code(t: RvrTrend) -> Seq<char> {
    match t {
        RvrTrend::Up => seq!['U'],
        RvrTrend::Down => seq!['D'],
        RvrTrend::NoChange => seq!['N'],
    }
}

pub open spec fn intensity_code(i: Intensity) -> Seq<char> {
    match i {
        Intensity::Light => seq!['-'],
        Intensity::Heavy => seq!['+'],
    }
}

pub open spec fn descriptor_code(d: Descriptor) -> Seq<char> {
    match d {
        Descriptor::Shallow => seq!['M', 'I'],
        Descriptor::Partial => seq!['P', 'R'],
        Descriptor::Patches => seq!['B', 'C'],
        Descriptor::LowDrifting => seq!['D', 'R'],
        Descriptor::Blowing => seq!['B', 'L'],
        Descriptor::Showers => seq!['S', 'H'],
        Descriptor::Thunderstorm => seq!['T', 'S'],
        Descriptor::Freezing => seq!['F', 'Z'],
    }
}

pub open spec fn phenomenon_code(p: Phenomenon) -> Seq<char> {
    match p {
        Phenomenon::Drizzle => seq!['D', 'Z'],
        Phenomenon::Rain => seq!['R', 'A'],
        Phenomenon::Snow => seq!['S', 'N'],
        Phenomenon::SnowGrains => seq!['S', 'G'],
        Phenomenon::IceCrystals => seq!['I', 'C'],
        Phenomenon::IcePellets => seq!['P', 'L'],
        Phenomenon::Hail => seq!['G', 'R'],
        Phenomenon::SmallHail => seq!['G', 'S'],
        Phenomenon::Unknown => seq!['U', 'P'],
        Phenomenon::Mist => seq!['B', 'R'],
        Phenomenon::Fog => seq!['F', 'G'],
        Phenomenon::Smoke => seq!['F', 'U'],
        Phenomenon::VolcanicAsh => seq!['V', 'A'],
        Phenomenon::Dust => seq!['D', 'U'],
        Phenomenon::Sand => seq!['S', 'A'],
        Phenomenon::Haze => seq!['H', 'Z'],
        Phenomenon::DustWhirls => seq!['P', 'O'],
        Phenomenon::Squall => seq!['S', 'Q'],
        Phenomenon::FunnelCloud => seq!['F', 'C'],
        Phenomenon::Sandstorm => seq!['S', 'S'],
        Phenomenon::Duststorm => seq!['D', 'S'],
    }
}

/// The fields of one decoded group, as path/value pairs.
pub open spec fn spec_group_fields(g: GroupV) -> Seq<(Seq<char>, TreeV)> {
    match g {
        GroupV::Wind { direction, speed, gust, unit } => {
            let dir: TreeV = match direction {
                WindDir::Degrees(d) => TreeV::Num(dec_str(d as int)),
                WindDir::Variable => TreeV::Str(
                    seq!['v', 'a', 'r', 'i', 'a', 'b', 'l', 'e'],
                ),
            };
            let base = seq![
                (seq!['d', 'i', 'r', 'e', 'c', 't', 'i', 'o', 'n'], dir),
                (seq!['s', 'p', 'e', 'e', 'd'], TreeV::Num(dec_str(speed as int))),
            ];
            let with_gust = match gust {
                Some(gv) => base.push((seq!['g', 'u', 's', 't'], TreeV::Num(dec_str(gv as int)))),
                None => base,
            };
            with_gust.push((seq!['u', 'n', 'i', 't'], TreeV::Str(speed_unit_code(unit))))
        },
        GroupV::Visibility { distance, unit } => seq![
            (
                seq!['d', 'i', 's', 't', 'a', 'n', 'c', 'e'],
                TreeV::Num(dec_str(distance as int)),
            ),
            (seq!['u', 'n', 'i', 't'], TreeV::Str(distance_unit_code(unit))),
        ],
        GroupV::RunwayVisualRange { runway, value, unit, trend } => {
            let base = seq![
                (seq!['r', 'u', 'n', 'w', 'a', 'y'], TreeV::Str(runway)),
                (seq!['v', 'a', 'l', 'u', 'e'], TreeV::Num(dec_str(value as int))),
                (seq!['u', 'n', 'i', 't'], TreeV::Str(distance_unit_code(unit))),
            ];
            match trend {
                Some(t) => base.push(
                    (seq!['t', 'r', 'e', 'n', 'd'], TreeV::Str(rvr_trend_code(t))),
                ),
                None => base,
            }
        },
        GroupV::WeatherPhenomenon { intensity, descriptor, precipitation } => {
            let base: Seq<(Seq<char>, TreeV)> = Seq::empty();
            let with_int = match intensity {
                Some(iv) => base.push(
                    (
                        seq!['i', 'n', 't', 'e', 'n', 's', 'i', 't', 'y'],
                        TreeV::Str(intensity_code(iv)),
                    ),
                ),
                None => base,
            };
            let with_desc = match descriptor {
                Some(d) => with_int.push(
                    (
                        seq!['d', 'e', 's', 'c', 'r', 'i', 'p', 't', 'o', 'r'],
                        TreeV::Str(descriptor_code(d)),
                    ),
                ),
                None => with_int,
            };
            with_desc.push(
                (
                    seq![
                        'p',
                        'r',
                        'e',
                        'c',
                        'i',
                        'p',
                        'i',
                        't',
                        'a',
                        't',
                        'i',
                        'o',
                        'n',
                    ],
                    TreeV::Arr(
                        Seq::new(
                            precipitation.len(),
                            |i: int| TreeV::Str(phenomenon_code(precipitation[i])),
                        ),
                    ),
                ),
            )
        },
        GroupV::CloudLayer { coverage, base_height, form } => {
            let base = seq![
                (
                    seq!['c', 'o', 'v', 'e', 'r', 'a', 'g', 'e'],
                    TreeV::Str(cover_code(coverage)),
                ),
            ];
            let with_h = match base_height {
                Some(h) => base.push(
                    (
                        seq!['b', 'a', 's', 'e', '_', 'h', 'e', 'i', 'g', 'h', 't'],
                        TreeV::Num(dec_str(h as int)),
                    ),
                ),
                None => base,
            };
            match form {
                Some(f) => with_h.push((seq!['f', 'o', 'r', 'm'], TreeV::Str(form_code(f)))),
                None => with_h,
            }
        },
        GroupV::Temperature { air, dewpoint } => seq![
            (seq!['a', 'i', 'r'], TreeV::Num(int_str(air as int))),
            (
                seq!['d', 'e', 'w', 'p', 'o', 'i', 'n', 't'],
                TreeV::Num(int_str(dewpoint as int)),
            ),
        ],
        GroupV::Pressure { value_centi, unit } => seq![
            (
                seq!['v', 'a', 'l', 'u', 'e', '_', 'c', 'e', 'n', 't', 'i'],
                TreeV::Num(dec_str(value_centi as int)),
            ),
            (seq!['u', 'n', 'i', 't'], TreeV::Str(pressure_unit_code(unit))),
        ],
        GroupV::Trend { kind, detail } => seq![
            (seq!['k', 'i', 'n', 'd'], TreeV::Str(trend_code(kind))),
            (seq!['d', 'e', 't', 'a', 'i', 'l'], TreeV::Str(detail)),
        ],
        GroupV::Unrecognized { raw_text } => seq![
            (seq!['r', 'a', 'w', '_', 't', 'e', 'x', 't'], TreeV::Str(raw_text)),
        ],
    }
}

/// The path segment naming a group's kind.
pub open spec fn group_kind_code(g: GroupV) -> Seq<char> {
    match g {
        GroupV::Wind { .. } => seq!['w', 'i', 'n', 'd'],
        GroupV::Visibility { .. } => seq!['v', 'i', 's', 'i', 'b', 'i', 'l', 'i', 't', 'y'],
        GroupV::RunwayVisualRange { .. } => seq![
            'r',
            'u',
            'n',
            'w',
            'a',
            'y',
            '_',
            'v',
            'i',
            's',
            'u',
            'a',
            'l',
            '_',
            'r',
            'a',
            'n',
            'g',
            'e',
        ],
        GroupV::WeatherPhenomenon { .. } => seq!['w', 'e', 'a', 't', 'h', 'e', 'r'],
        GroupV::CloudLayer { .. } => seq![
            'c',
            'l',
            'o',
            'u',
            'd',
            '_',
            'l',
            'a',
            'y',
            'e',
            'r',
        ],
        GroupV::Temperature { .. } => seq![
            't',
            'e',
            'm',
            'p',
            'e',
            'r',
            'a',
            't',
            'u',
            'r',
            'e',
        ],
        GroupV::Pressure { .. } => seq!['p', 'r', 'e', 's', 's', 'u', 'r', 'e'],
        GroupV::Trend { .. } => seq!['t', 'r', 'e', 'n', 'd'],
        GroupV::Unrecognized { .. } => seq![
            'u',
            'n',
            'r',
            'e',
            'c',
            'o',
            'g',
            'n',
            'i',
            'z',
            'e',
            'd',
        ],
    }
}

/// One decoded group as a one-field object keyed by the group's kind.
pub open spec fn spec_group_tree(g: GroupV) -> TreeV {
    TreeV::Obj(seq![(group_kind_code(g), TreeV::Obj(spec_group_fields(g)))])
}

/// The whole record as a tree: optional scalar fields when present, and
/// all groups in order under `groups`.
pub open spec fn spec_obs_tree(o: ObsV) -> TreeV {
    let base: Seq<(Seq<char>, TreeV)> = Seq::empty();
    let s1 = match o.station {
        Some(s) => base.push((seq!['s', 't', 'a', 't', 'i', 'o', 'n'], TreeV::Str(s))),
        None => base,
    };
    let s2 = match o.timestamp {
        Some(t) => s1.push(
            (seq!['t', 'i', 'm', 'e', 's', 't', 'a', 'm', 'p'], TreeV::Str(t)),
        ),
        None => s1,
    };
    let s3 = s2.push(
        (
            seq!['g', 'r', 'o', 'u', 'p', 's'],
            TreeV::Arr(Seq::new(o.groups.len(), |i: int| spec_group_tree(o.groups[i]))),
        ),
    );
    let s4 = match o.remarks {
        Some(r) => s3.push((seq!['r', 'e', 'm', 'a', 'r', 'k', 's'], TreeV::Str(r))),
        None => s3,
    };
    TreeV::Obj(s4)
}

fn speed_unit_str(u: SpeedUnit) -> (r: &'static str)
    ensures
        r@ == speed_unit_code(u),
{
    proof {
        reveal_strlit("KT");
        reveal_strlit("MPS");
        reveal_strlit("KMH");
    }
    let r = match u {
        SpeedUnit::Knots => "KT",
        SpeedUnit::MetersPerSecond => "MPS",
        SpeedUnit::KilometersPerHour => "KMH",
    };
    proof {
        assert(r@ =~= speed_unit_code(u));
    }
    r
}

fn distance_unit_str(u: DistanceUnit) -> (r: &'static str)
    ensures
        r@ == distance_unit_code(u),
{
    proof {
        reveal_strlit("SM");
        reveal_strlit("M");
        reveal_strlit("FT");
    }
    let r = match u {
        DistanceUnit::StatuteMiles => "SM",
        DistanceUnit::Meters => "M",
        DistanceUnit::Feet => "FT",
    };
    proof {
        assert(r@ =~= distance_unit_code(u));
    }
    r
}

fn pressure_unit_str(u: PressureUnit) -> (r: &'static str)
    ensures
        r@ == pressure_unit_code(u),
{
    proof {
        reveal_strlit("inHg");
        reveal_strlit("hPa");
    }
    let r = match u {
        PressureUnit::InchesHg => "inHg",
        PressureUnit::Hectopascal => "hPa",
    };
    proof {
        assert(r@ =~= pressure_unit_code(u));
    }
    r
}

fn cover_str(c: CloudCover) -> (r: &'static str)
    ensures
        r@ == cover_code(c),
{
    proof {
        reveal_strlit("FEW");
        reveal_strlit("SCT");
        reveal_strlit("BKN");
        reveal_strlit("OVC");
        reveal_strlit("SKC");
        reveal_strlit("CLR");
        reveal_strlit("NSC");
        reveal_strlit("NCD");
    }
    let r = match c {
        CloudCover::Few => "FEW",
        CloudCover::Scattered => "SCT",
        CloudCover::Broken => "BKN",
        CloudCover::Overcast => "OVC",
        CloudCover::SkyClear => "SKC",
        CloudCover::Clear => "CLR",
        CloudCover::NoSignificantCloud => "NSC",
        CloudCover::NoCloudDetected => "NCD",
    };
    proof {
        assert(r@ =~= cover_code(c));
    }
    r
}

fn form_str(f: CloudForm) -> (r: &'static str)
    ensures
        r@ == form_code(f),
{
    proof {
        reveal_strlit("CB");
        reveal_strlit("TCU");
    }
    let r = match f {
        CloudForm::Cumulonimbus => "CB",
        CloudForm::ToweringCumulus => "TCU",
    };
    proof {
        assert(r@ =~= form_code(f));
    }
    r
}

fn trend_str(k: TrendKind) -> (r: &'static str)
    ensures
        r@ == trend_code(k),
{
    proof {
        reveal_strlit("NOSIG");
        reveal_strlit("BECMG");
        reveal_strlit("TEMPO");
    }
    let r = match k {
        TrendKind::NoSignificantChange => "NOSIG",
        TrendKind::Becoming => "BECMG",
        TrendKind::Temporary => "TEMPO",
    };
    proof {
        assert(r@ =~= trend_code(k));
    }
    r
}

fn rvr_trend_str(t: RvrTrend) -> (r: &'static str)
    ensures
        r@ == rvr_trend_code(t),
{
    proof {
        reveal_strlit("U");
        reveal_strlit("D");
        reveal_strlit("N");
    }
    let r = match t {
        RvrTrend::Up => "U",
        RvrTrend::Down => "D",
        RvrTrend::NoChange => "N",
    };
    proof {
        assert(r@ =~= rvr_trend_code(t));
    }
    r
}

fn intensity_str(i: Intensity) -> (r: &'static str)
    ensures
        r@ == intensity_code(i),
{
    proof {
        reveal_strlit("-");
        reveal_strlit("+");
    }
    let r = match i {
        Intensity::Light => "-",
        Intensity::Heavy => "+",
    };
    proof {
        assert(r@ =~= intensity_code(i));
    }
    r
}

fn descriptor_str(d: Descriptor) -> (r: &'static str)
    ensures
        r@ == descriptor_code(d),
{
    proof {
        reveal_strlit("MI");
        reveal_strlit("PR");
        reveal_strlit("BC");
        reveal_strlit("DR");
        reveal_strlit("BL");
        reveal_strlit("SH");
        reveal_strlit("TS");
        reveal_strlit("FZ");
    }
    let r = match d {
        Descriptor::Shallow => "MI",
        Descriptor::Partial => "PR",
        Descriptor::Patches => "BC",
        Descriptor::LowDrifting => "DR",
        Descriptor::Blowing => "BL",
        Descriptor::Showers => "SH",
        Descriptor::Thunderstorm => "TS",
        Descriptor::Freezing => "FZ",
    };
    proof {
        assert(r@ =~= descriptor_code(d));
    }
    r
}

fn phenomenon_str(p: Phenomenon) -> (r: &'static str)
    ensures
        r@ == phenomenon_code(p),
{
    proof {
        reveal_strlit("DZ");
        reveal_strlit("RA");
        reveal_strlit("SN");
        reveal_strlit("SG");
        reveal_strlit("IC");
        reveal_strlit("PL");
        reveal_strlit("GR");
        reveal_strlit("GS");
        reveal_strlit("UP");
        reveal_strlit("BR");
        reveal_strlit("FG");
        reveal_strlit("FU");
        reveal_strlit("VA");
        reveal_strlit("DU");
        reveal_strlit("SA");
        reveal_strlit("HZ");
        reveal_strlit("PO");
        reveal_strlit("SQ");
        reveal_strlit("FC");
        reveal_strlit("SS");
        reveal_strlit("DS");
    }
    let r = match p {
        Phenomenon::Drizzle => "DZ",
        Phenomenon::Rain => "RA",
        Phenomenon::Snow => "SN",
        Phenomenon::SnowGrains => "SG",
        Phenomenon::IceCrystals => "IC",
        Phenomenon::IcePellets => "PL",
        Phenomenon::Hail => "GR",
        Phenomenon::SmallHail => "GS",
        Phenomenon::Unknown => "UP",
        Phenomenon::Mist => "BR",
        Phenomenon::Fog => "FG",
        Phenomenon::Smoke => "FU",
        Phenomenon::VolcanicAsh => "VA",
        Phenomenon::Dust => "DU",
        Phenomenon::Sand => "SA",
        Phenomenon::Haze => "HZ",
        Phenomenon::DustWhirls => "PO",
        Phenomenon::Squall => "SQ",
        Phenomenon::FunnelCloud => "FC",
        Phenomenon::Sandstorm => "SS",
        Phenomenon::Duststorm => "DS",
    };
    proof {
        assert(r@ =~= phenomenon_code(p));
    }
    r
}

#[verifier::rlimit(100)]
fn group_fields(g: &WeatherGroup) -> (r: Vec<(String, JsonValue)>)
    ensures
        obj_view(r@) == spec_group_fields(g@),
{
    let mut v: Vec<(String, JsonValue)> = Vec::new();
    match g {
        WeatherGroup::Wind { direction, speed, gust, unit } => {
            proof {
                reveal_strlit("direction");
                reveal_strlit("speed");
                reveal_strlit("gust");
                reveal_strlit("unit");
                reveal_strlit("variable");
            }
            let dir: JsonValue = match direction {
                WindDir::Degrees(d) => JsonValue::Num(u64_to_string(*d as u64)),
                WindDir::Variable => JsonValue::Str("variable".to_owned()),
            };
            v.push(("direction".to_owned(), dir));
            v.push(("speed".to_owned(), JsonValue::Num(u64_to_string(*speed as u64))));
            if let Some(gv) = gust {
                v.push(("gust".to_owned(), JsonValue::Num(u64_to_string(*gv as u64))));
            }
            v.push(("unit".to_owned(), JsonValue::Str(speed_unit_str(*unit).to_owned())));
            proof {
                lemma_obj_view_len(v@);
                assert(obj_view(v@) =~~= spec_group_fields(g@));
            }
        },
        WeatherGroup::Visibility { distance, unit } => {
            proof {
                reveal_strlit("distance");
                reveal_strlit("unit");
            }
            v.push(("distance".to_owned(), JsonValue::Num(u64_to_string(*distance as u64))));
            v.push(("unit".to_owned(), JsonValue::Str(distance_unit_str(*unit).to_owned())));
            proof {
                lemma_obj_view_len(v@);
                assert(obj_view(v@) =~~= spec_group_fields(g@));
            }
        },
        WeatherGroup::RunwayVisualRange { runway, value, unit, trend } => {
            proof {
                reveal_strlit("runway");
                reveal_strlit("value");
                reveal_strlit("unit");
                reveal_strlit("trend");
            }
            v.push(("runway".to_owned(), JsonValue::Str(runway.clone())));
            v.push(("value".to_owned(), JsonValue::Num(u64_to_string(*value as u64))));
            v.push(("unit".to_owned(), JsonValue::Str(distance_unit_str(*unit).to_owned())));
            if let Some(t) = trend {
                v.push(("trend".to_owned(), JsonValue::Str(rvr_trend_str(*t).to_owned())));
            }
            proof {
                lemma_obj_view_len(v@);
                assert(obj_view(v@) =~~= spec_group_fields(g@));
            }
        },
        WeatherGroup::WeatherPhenomenon { intensity, descriptor, precipitation } => {
            proof {
                reveal_strlit("intensity");
                reveal_strlit("descriptor");
                reveal_strlit("precipitation");
            }
            if let Some(iv) = intensity {
                v.push(("intensity".to_owned(), JsonValue::Str(intensity_str(*iv).to_owned())));
            }
            if let Some(d) = descriptor {
                v.push(
                    ("descriptor".to_owned(), JsonValue::Str(descriptor_str(*d).to_owned())),
                );
            }
            let mut pv: Vec<JsonValue> = Vec::new();
            let mut i: usize = 0;
            while i < precipitation.len()
                invariant
                    i <= precipitation@.len(),
                    pv@.len() == i,
                    forall|k: int|
                        0 <= k < i ==> tree_view(#[trigger] pv@[k]) == TreeV::Str(
                            phenomenon_code(precipitation@[k]),
                        ),
                decreases precipitation@.len() - i,
            {
                let code = phenomenon_str(precipitation[i]);
                pv.push(JsonValue::Str(code.to_owned()));
                i = i + 1;
            }
            v.push(("precipitation".to_owned(), JsonValue::Arr(pv)));
            proof {
                lemma_obj_view_len(v@);
                let last = v@.len() - 1;
                match v@[last].1 {
                    JsonValue::Arr(a) => {
                        lemma_arr_view_len(a@);
                        assert(arr_view(a@) =~= Seq::new(
                            precipitation@.len(),
                            |i: int| TreeV::Str(phenomenon_code(precipitation@[i])),
                        ));
                    },
                    _ => {
                        assert(false);
                    },
                }
                assert(obj_view(v@) =~~= spec_group_fields(g@));
            }
        },
        WeatherGroup::CloudLayer { coverage, base_height, form } => {
            proof {
                reveal_strlit("coverage");
                reveal_strlit("base_height");
                reveal_strlit("form");
            }
            v.push(("coverage".to_owned(), JsonValue::Str(cover_str(*coverage).to_owned())));
            if let Some(h) = base_height {
                v.push(("base_height".to_owned(), JsonValue::Num(u64_to_string(*h as u64))));
            }
            if let Some(f) = form {
                v.push(("form".to_owned(), JsonValue::Str(form_str(*f).to_owned())));
            }
            proof {
                lemma_obj_view_len(v@);
                assert(obj_view(v@) =~~= spec_group_fields(g@));
            }
        },
        WeatherGroup::Temperature { air, dewpoint } => {
            proof {
                reveal_strlit("air");
                reveal_strlit("dewpoint");
            }
            v.push(("air".to_owned(), JsonValue::Num(i64_to_string(*air as i64))));
            v.push(("dewpoint".to_owned(), JsonValue::Num(i64_to_string(*dewpoint as i64))));
            proof {
                lemma_obj_view_len(v@);
                assert(obj_view(v@) =~~= spec_group_fields(g@));
            }
        },
        WeatherGroup::Pressure { value_centi, unit } => {
            proof {
                reveal_strlit("value_centi");
                reveal_strlit("unit");
            }
            v.push(("value_centi".to_owned(), JsonValue::Num(u64_to_string(*value_centi as u64))));
            v.push(("unit".to_owned(), JsonValue::Str(pressure_unit_str(*unit).to_owned())));
            proof {
                lemma_obj_view_len(v@);
                assert(obj_view(v@) =~~= spec_group_fields(g@));
            }
        },
        WeatherGroup::Trend { kind, detail } => {
            proof {
                reveal_strlit("kind");
                reveal_strlit("detail");
            }
            v.push(("kind".to_owned(), JsonValue::Str(trend_str(*kind).to_owned())));
            v.push(("detail".to_owned(), JsonValue::Str(detail.clone())));
            proof {
                lemma_obj_view_len(v@);
                assert(obj_view(v@) =~~= spec_group_fields(g@));
            }
        },
        WeatherGroup::Unrecognized { raw_text } => {
            proof {
                reveal_strlit("raw_text");
            }
            v.push(("raw_text".to_owned(), JsonValue::Str(raw_text.clone())));
            proof {
                lemma_obj_view_len(v@);
                assert(obj_view(v@) =~~= spec_group_fields(g@));
            }
        },
    }
    v
}

fn group_tree(g: &WeatherGroup) -> (r: JsonValue)
    ensures
        r@ == spec_group_tree(g@),
{
    proof {
        reveal_strlit("wind");
        reveal_strlit("visibility");
        reveal_strlit("runway_visual_range");
        reveal_strlit("weather");
        reveal_strlit("cloud_layer");
        reveal_strlit("temperature");
        reveal_strlit("pressure");
        reveal_strlit("trend");
        reveal_strlit("unrecognized");
    }
    let kind: &'static str = match g {
        WeatherGroup::Wind { .. } => "wind",
        WeatherGroup::Visibility { .. } => "visibility",
        WeatherGroup::RunwayVisualRange { .. } => "runway_visual_range",
        WeatherGroup::WeatherPhenomenon { .. } => "weather",
        WeatherGroup::CloudLayer { .. } => "cloud_layer",
        WeatherGroup::Temperature { .. } => "temperature",
        WeatherGroup::Pressure { .. } => "pressure",
        WeatherGroup::Trend { .. } => "trend",
        WeatherGroup::Unrecognized { .. } => "unrecognized",
    };
    proof {
        assert(kind@ =~= group_kind_code(g@));
    }
    let fields = group_fields(g);
    let mut o: Vec<(String, JsonValue)> = Vec::new();
    o.push((kind.to_owned(), JsonValue::Obj(fields)));
    let r = JsonValue::Obj(o);
    proof {
        match &r {
            JsonValue::Obj(ov) => {
                lemma_obj_view_len(ov@);
                assert(obj_view(ov@)[0] == (ov@[0].0@, tree_view(ov@[0].1)));
                assert(tree_view(ov@[0].1) == TreeV::Obj(spec_group_fields(g@)));
                assert(obj_view(ov@) =~= seq![
                    (group_kind_code(g@), TreeV::Obj(spec_group_fields(g@))),
                ]);
            },
            _ => {},
        }
        assert(r@ =~~= spec_group_tree(g@));
    }
    r
}

/// Converts a decoded record into a tree value, ready for the flattener
/// and the tabular writer.
#[verifier::rlimit(100)]
pub fn observation_to_tree(obs: &Observation) -> (r: JsonValue)
    ensures
        r@ == spec_obs_tree(obs@),
{
    proof {
        reveal_strlit("station");
        reveal_strlit("timestamp");
        reveal_strlit("groups");
        reveal_strlit("remarks");
    }
    let ghost ov = obs@;
    let ghost base: Seq<(Seq<char>, TreeV)> = Seq::empty();
    let ghost s1 = match ov.station {
        Some(s) => base.push((seq!['s', 't', 'a', 't', 'i', 'o', 'n'], TreeV::Str(s))),
        None => base,
    };
    let ghost s2 = match ov.timestamp {
        Some(t) => s1.push((seq!['t', 'i', 'm', 'e', 's', 't', 'a', 'm', 'p'], TreeV::Str(t))),
        None => s1,
    };
    let ghost garr = TreeV::Arr(Seq::new(ov.groups.len(), |k: int| spec_group_tree(ov.groups[k])));
    let ghost s3 = s2.push((seq!['g', 'r', 'o', 'u', 'p', 's'], garr));
    let ghost s4 = match ov.remarks {
        Some(rm) => s3.push((seq!['r', 'e', 'm', 'a', 'r', 'k', 's'], TreeV::Str(rm))),
        None => s3,
    };
    let mut fields: Vec<(String, JsonValue)> = Vec::new();
    if let Some(s) = &obs.station {
        fields.push(("station".to_owned(), JsonValue::Str(s.clone())));
    }
    proof {
        lemma_obj_view_len(fields@);
        assert(obj_view(fields@) =~~= s1);
    }
    if let Some(t) = &obs.timestamp {
        fields.push(("timestamp".to_owned(), JsonValue::Str(t.clone())));
    }
    proof {
        lemma_obj_view_len(fields@);
        assert(obj_view(fields@) =~~= s2);
    }
    let mut gs: Vec<JsonValue> = Vec::new();
    let mut i: usize = 0;
    while i < obs.groups.len()
        invariant
            i <= obs.groups@.len(),
            gs@.len() == i,
            forall|k: int|
                0 <= k < i ==> tree_view(#[trigger] gs@[k]) == spec_group_tree(
                    obs.groups@[k]@,
                ),
        decreases obs.groups@.len() - i,
    {
        gs.push(group_tree(&obs.groups[i]));
        i = i + 1;
    }
    proof {
        lemma_arr_view_len(gs@);
        assert(arr_view(gs@) =~= Seq::new(ov.groups.len(), |k: int| spec_group_tree(ov.groups[k])));
    }
    let garr_exec = JsonValue::Arr(gs);
    proof {
        assert(tree_view(garr_exec) == garr);
    }
    fields.push(("groups".to_owned(), garr_exec));
    proof {
        lemma_obj_view_len(fields@);
        assert(obj_view(fields@) =~~= s3);
    }
    if let Some(rm) = &obs.remarks {
        fields.push(("remarks".to_owned(), JsonValue::Str(rm.clone())));
    }
    proof {
        lemma_obj_view_len(fields@);
        assert(obj_view(fields@) =~~= s4);
    }
    let r = JsonValue::Obj(fields);
    proof {
        assert(spec_obs_tree(ov) == TreeV::Obj(s4));
        assert(r@ =~~= TreeV::Obj(s4));
    }
    r
}

} // verus!
