//! Observation assembler: a small explicit state machine that consumes the
//! scanned tokens in order and builds the structured record.
//!
//! The assembler never fails: tokens that no classifier accepts are kept as
//! `Unrecognized` groups, and a missing station or timestamp leaves those
//! fields empty. After the fixed remarks marker `RMK`, all remaining tokens
//! are joined with single spaces into the free-text remarks.

use vstd::prelude::*;

use crate::groups::{
    spec_classify, spec_station, spec_timestamp, try_classify, is_station, is_timestamp,
    GroupV, WeatherGroup, tchar,
};
use crate::scan::{scan, spec_tokens, RawToken};

verus! {

/// Assembler states. Reaching the end of input in any state completes the
/// record, so no separate final state is held.
#[derive(Clone, Copy, PartialEq, Eq, Structural, Debug)]
pub enum AsmState {
    ExpectingStationOrTime,
    ExpectingGroups,
    ExpectingRemarks,
}

/// The assembled record for one raw report.
#[derive(Debug, Clone, PartialEq, Eq)]
pub struct Observation {
    pub station: Option<String>,
    pub timestamp: Option<String>,
    pub groups: Vec<WeatherGroup>,
    pub remarks: Option<String>,
}

/// The mathematical value of an [`Observation`].
#[verifier::ext_equal]
pub struct ObsV {
    pub station: Option<Seq<char>>,
    pub timestamp: Option<Seq<char>>,
    pub groups: Seq<GroupV>,
    pub remarks: Option<Seq<char>>,
}

impl View for Observation {
    type V = ObsV;

    open spec fn view(&self) -> ObsV {
        ObsV {
            station: match self.station {
                Some(s) => Some(s@),
                None => None,
            },
            timestamp: match self.timestamp {
                Some(s) => Some(s@),
                None => None,
            },
            groups: self.groups@.map_values(|g: WeatherGroup| g@),
            remarks: match self.remarks {
                Some(s) => Some(s@),
                None => None,
            },
        }
    }
}

/// The record before any token has been consumed.
pub open spec fn empty_obs() -> ObsV {
    ObsV { station: None, timestamp: None, groups: Seq::empty(), remarks: None }
}

/// The fixed marker that starts the remarks section.
pub open spec fn is_rmk(t: Seq<char>) -> bool {
    t.len() == 3 && t[0] == 'R' && t[1] == 'M' && t[2] == 'K'
}

/// One step of the group phase: the remarks marker switches to the remarks
/// phase; any other token becomes exactly one group, `Unrecognized` if no
/// classifier accepts it.
pub open spec fn group_step(o: ObsV, t: Seq<char>) -> (ObsV, AsmState) {
    if is_rmk(t) {
        (
            ObsV {
                station: o.station,
                timestamp: o.timestamp,
                groups: o.groups,
                remarks: Some(Seq::empty()),
            },
            AsmState::ExpectingRemarks,
        )
    } else {
        let g = match spec_classify(t) {
            Some(g) => g,
            None => GroupV::Unrecognized { raw_text: t },
        };
        (
            ObsV {
                station: o.station,
                timestamp: o.timestamp,
                groups: o.groups.push(g),
                remarks: o.remarks,
            },
            AsmState::ExpectingGroups,
        )
    }
}

/// One transition of the assembler on one token.
pub open spec fn spec_step(o: ObsV, st: AsmState, t: Seq<char>) -> (ObsV, AsmState) {
    match st {
        AsmState::ExpectingStationOrTime => {
            if spec_timestamp(t) {
                (
                    ObsV {
                        station: o.station,
                        timestamp: Some(t),
                        groups: o.groups,
                        remarks: o.remarks,
                    },
                    AsmState::ExpectingGroups,
                )
            } else if spec_station(t) && o.station is None {
                (
                    ObsV {
                        station: Some(t),
                        timestamp: o.timestamp,
                        groups: o.groups,
                        remarks: o.remarks,
                    },
                    AsmState::ExpectingStationOrTime,
                )
            } else {
                group_step(o, t)
            }
        },
        AsmState::ExpectingGroups => group_step(o, t),
        AsmState::ExpectingRemarks => {
            let r = match o.remarks {
                Some(r) => r,
                None => Seq::empty(),
            };
            let nr: Seq<char> = if r.len() == 0 {
                t
            } else {
                r + seq![' '] + t
            };
            (
                ObsV {
                    station: o.station,
                    timestamp: o.timestamp,
                    groups: o.groups,
                    remarks: Some(nr),
                },
                AsmState::ExpectingRemarks,
            )
        },
    }
}

/// Runs the assembler from token `i` on, starting from record `o` in state
/// `st`.
pub open spec fn spec_assemble_from(toks: Seq<Seq<char>>, i: int, o: ObsV, st: AsmState) -> ObsV
    decreases toks.len() - i,
    when 0 <= i <= toks.len()
{
    if i >= toks.len() {
        o
    } else {
        let (o2, s2) = spec_step(o, st, toks[i]);
        spec_assemble_from(toks, i + 1, o2, s2)
    }
}

/// The record assembled from a whole token list.
pub open spec fn spec_assemble(toks: Seq<Seq<char>>) -> ObsV {
    spec_assemble_from(toks, 0, empty_obs(), AsmState::ExpectingStationOrTime)
}

/// The record decoded from a whole raw report string.
pub open spec fn spec_parse_raw_ob(s: Seq<char>) -> ObsV {
    spec_assemble(spec_tokens(s))
}

fn is_rmk_exec(t: &String) -> (r: bool)
    ensures
        r == is_rmk(t@),
{
    let n = t.as_str().unicode_len();
    n == 3 && tchar(t.as_str(), 0) == 'R' && tchar(t.as_str(), 1) == 'M' && tchar(t.as_str(), 2)
        == 'K'
}

/// Consumes the scanned tokens in order and assembles the record; never
/// fails.
pub fn assemble(tokens: &Vec<RawToken>) -> (r: Observation)
    ensures
        r@ == spec_assemble(tokens@.map_values(|t: RawToken| t.text@)),
{
    let ghost texts = tokens@.map_values(|t: RawToken| t.text@);
    let mut obs = Observation { station: None, timestamp: None, groups: Vec::new(), remarks: None };
    let mut st = AsmState::ExpectingStationOrTime;
    let mut i: usize = 0;
    proof {
        assert(obs@ =~= empty_obs());
    }
    while i < tokens.len()
        invariant
            i <= tokens@.len(),
            texts == tokens@.map_values(|t: RawToken| t.text@),
            spec_assemble(texts) == spec_assemble_from(texts, i as int, obs@, st),
        decreases tokens@.len() - i,
    {
        let t = &tokens[i].text;
        assert(texts[i as int] == t@);
        let ghost stepped = spec_step(obs@, st, texts[i as int]);
        match st {
            AsmState::ExpectingStationOrTime => {
                if is_timestamp(t.as_str()) {
                    obs.timestamp = Some(t.clone());
                    st = AsmState::ExpectingGroups;
                } else if obs.station.is_none() && is_station(t.as_str()) {
                    obs.station = Some(t.clone());
                    st = AsmState::ExpectingStationOrTime;
                } else {
                    st = do_group_step(&mut obs, t);
                }
            },
            AsmState::ExpectingGroups => {
                st = do_group_step(&mut obs, t);
            },
            AsmState::ExpectingRemarks => {
                match &mut obs.remarks {
                    Some(r) => {
                        if r.as_str().unicode_len() == 0 {
                            *r = t.clone();
                        } else {
                            r.append(" ");
                            proof {
                                reveal_strlit(" ");
                            }
                            r.append(t.as_str());
                        }
                    },
                    None => {
                        obs.remarks = Some(t.clone());
                    },
                }
                st = AsmState::ExpectingRemarks;
            },
        }
        proof {
            assert(obs@ =~= stepped.0);
            assert(st == stepped.1);
        }
        i = i + 1;
    }
    obs
}

/// Adds one token of the group phase to the record and returns the next
/// state.
fn do_group_step(obs: &mut Observation, t: &String) -> (st: AsmState)
    ensures
        (final(obs)@, st) == group_step(old(obs)@, t@),
{
    if is_rmk_exec(t) {
        obs.remarks = Some(String::new());
        proof {
            assert(obs@ =~= group_step(old(obs)@, t@).0);
        }
        AsmState::ExpectingRemarks
    } else {
        let g = match try_classify(t.as_str()) {
            Some(g) => g,
            None => WeatherGroup::Unrecognized { raw_text: t.clone() },
        };
        let ghost gv = g@;
        obs.groups.push(g);
        proof {
            assert(obs.groups@.map_values(|g: WeatherGroup| g@) =~= old(
                obs,
            ).groups@.map_values(|g: WeatherGroup| g@).push(gv));
            assert(obs@ =~= group_step(old(obs)@, t@).0);
        }
        AsmState::ExpectingGroups
    }
}

/// Decodes one raw report: scans it into tokens and assembles the record.
/// Decoding is total — malformed or unknown groups degrade to
/// `Unrecognized` entries and never raise an error.
pub fn parse_raw_ob(raw: &str) -> (r: Observation)
    ensures
        r@ == spec_parse_raw_ob(raw@),
{
    let tokens = scan(raw);
    assemble(&tokens)
}

} // verus!
