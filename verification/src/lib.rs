//! jsonsift: a verified decoder for raw aviation weather reports and a
//! verified tree-flattening / CSV pipeline.
//!
//! The library decodes whitespace-delimited aviation weather code groups
//! (wind, visibility, cloud layers, temperature, pressure, ...) into a
//! structured [`Observation`](assemble::Observation) record, and separately
//! converts nested tree values into flat path-to-string rows suitable for
//! CSV export.

pub mod assemble;
pub mod csv;
pub mod flatten;
pub mod groups;
pub mod json;
pub mod laws;
pub mod record;
pub mod scan;
pub mod tree;

pub use assemble::parse_raw_ob;
pub use flatten::flatten_json;
pub use json::parse_json;

use vstd::prelude::*;

use assemble::{spec_parse_raw_ob, Observation};
use csv::{rows_view, spec_write_csv, write_csv};
use flatten::{spec_flatten, FlatRow, DEPTH_LIMIT};
use json::spec_parse_json;
use tree::JsonValue;

verus! {

/// Errors surfaced by the tree-value pipeline.
///
/// Decoding raw weather reports never fails: malformed groups degrade to
/// `Unrecognized` entries instead. Only the tree-value side can report a
/// hard error.
#[derive(Debug, Clone, PartialEq, Eq)]
pub enum ParseError {
    /// Malformed textual input to the tree-value parser.
    JsonError(String),
    /// A tree shape the flattener cannot interpret.
    StructureError(String),
}

impl ParseError {
    /// A human-readable description of the error.
    pub fn message(&self) -> (r: &String)
        ensures
            r@ == match self {
                ParseError::JsonError(m) => m@,
                ParseError::StructureError(m) => m@,
            },
    {
        match self {
            ParseError::JsonError(m) => m,
            ParseError::StructureError(m) => m,
        }
    }
}

/// Handle for the two parsing front ends: raw weather reports and textual
/// tree values.
pub struct SiftParser;

impl SiftParser {
    /// Decodes one raw report; total, never fails.
    pub fn parse_report(raw: &str) -> (r: Observation)
        ensures
            r@ == spec_parse_raw_ob(raw@),
    {
        assemble::parse_raw_ob(raw)
    }

    /// Parses one tree value from text.
    pub fn parse_value(input: &str) -> (r: Result<JsonValue, ParseError>)
        ensures
            match r {
                Ok(v) => spec_parse_json(input@) == Some(v@),
                Err(e) => spec_parse_json(input@) is None && e matches ParseError::JsonError(_),
            },
    {
        json::parse_json(input)
    }
}

/// Converts one tree value to CSV text: flattens it into a single row and
/// writes that row with its header.
pub fn convert_to_csv(value: &JsonValue) -> (r: String)
    ensures
        r@ == spec_write_csv(seq![spec_flatten(value@, Seq::empty(), DEPTH_LIMIT as nat)]),
{
    let mut row = FlatRow::new();
    flatten::flatten_json(value, String::new(), &mut row);
    let mut rows: Vec<FlatRow> = Vec::new();
    rows.push(row);
    let out = write_csv(&rows);
    proof {
        assert(rows_view(rows@) =~= seq![
            spec_flatten(value@, Seq::empty(), DEPTH_LIMIT as nat),
        ]);
    }
    out
}

/// The command-line surface, as plain data: the binary parses the real
/// arguments and hands them over in this shape.
pub struct Cli {
    pub file: Option<String>,
    pub output: Option<String>,
}

/// The subcommands the binary offers.
pub enum Commands {
    Convert { file: String },
    Decode { file: String, output: Option<String> },
    Inspect { file: String },
    Credits,
}

} // verus!
