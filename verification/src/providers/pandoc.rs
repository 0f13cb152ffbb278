//! Formats that pandoc reads and writes, from what it prints.
use crate::providers::context::Provider;
use crate::providers::listing;
use crate::text;
use crate::types;
use crate::types::Suggestion;
use vstd::prelude::*;

verus! {

/// Which formats are listed.
#[derive(Debug, Clone, Copy, PartialEq, Eq, Structural)]
pub enum PandocFormats {
    Input,
    Output,
}

impl PandocFormats {
    /// The flag that makes pandoc list them.
    pub fn flag(self) -> (r: &'static str)
        ensures
            r@ == (match self {
                PandocFormats::Input => "--list-input-formats"@,
                PandocFormats::Output => "--list-output-formats"@,
            }),
    {
        match self {
            PandocFormats::Input => "--list-input-formats",
            PandocFormats::Output => "--list-output-formats",
        }
    }

    /// What one of them is.
    pub fn description(self) -> (r: &'static str)
        ensures
            r@ == (match self {
                PandocFormats::Input => "pandoc input format"@,
                PandocFormats::Output => "pandoc output format"@,
            }),
    {
        match self {
            PandocFormats::Input => "pandoc input format",
            PandocFormats::Output => "pandoc output format",
        }
    }
}

/// The formats that are listed one in each line.
pub fn parse_formats(s: &str, description: &str) -> (r: Vec<Suggestion>)
    ensures
        types::shown(r@) == listing::entries(text::lines(s@), description@),
{
    listing::line_entries(s, description)
}

/// Formats that pandoc reads.
pub struct PandocInputFormats;

impl Provider for PandocInputFormats {
    open spec fn provider_name(&self) -> Seq<char> {
        "pandoc_input_formats"@
    }

    fn name(&self) -> (r: &'static str) {
        "pandoc_input_formats"
    }
}

/// Formats that pandoc writes.
pub struct PandocOutputFormats;

impl Provider for PandocOutputFormats {
    open spec fn provider_name(&self) -> Seq<char> {
        "pandoc_output_formats"@
    }

    fn name(&self) -> (r: &'static str) {
        "pandoc_output_formats"
    }
}

} // verus!
