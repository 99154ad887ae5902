use vstd::prelude::*;

use crate::classify::{
    classify_entry,
    get_local_files_filtered,
    opt_chars,
    spec_filtered,
    DirectoryEntry,
};
use crate::style::{spec_bold_style, bold_style};
use crate::version::{spec_version, format_dotnet_version};

verus! {

/// A rendered prompt segment: a fixed symbol fragment naming the .NET
/// ecosystem, a version fragment, and the style to draw both with.
pub struct Segment {
    pub symbol: String,
    pub version: String,
    pub style: ansi_term::Style,
}

/// The mathematical value of a segment.
pub ghost struct SegmentModel {
    pub symbol: Seq<char>,
    pub version: Seq<char>,
    pub style: ansi_term::Style,
}

impl View for Segment {
    type V = SegmentModel;

    open spec fn view(&self) -> SegmentModel {
        SegmentModel { symbol: self.symbol@, version: self.version@, style: self.style }
    }
}

/// The model of an optional segment.
pub open spec fn opt_segment(r: Option<Segment>) -> Option<SegmentModel> {
    match r {
        Some(seg) => Some(seg@),
        None => None,
    }
}

/// The model of an optional listing.
pub open spec fn opt_listing(l: Option<Vec<DirectoryEntry>>) -> Option<Seq<DirectoryEntry>> {
    match l {
        Some(entries) => Some(entries@),
        None => None,
    }
}

/// The symbol fragment of every rendered segment.
pub open spec fn spec_symbol() -> Seq<char> {
    "\u{2022}NET "@
}

/// The whole module as a function of its two outside inputs: the directory
/// listing (`None` when listing the directory failed) and the captured
/// output of the toolchain's version query (`None` when the toolchain
/// could not be run or its output was not text). Every failure, and a
/// listing without .NET evidence, collapses to absence.
pub open spec fn spec_module(
    listing: Option<Seq<DirectoryEntry>>,
    output: Option<Seq<char>>,
) -> Option<SegmentModel> {
    match listing {
        None => None,
        Some(entries) => if spec_filtered(entries).len() == 0 {
            None
        } else {
            match output {
                None => None,
                Some(raw) => match spec_version(raw) {
                    None => None,
                    Some(ver) => Some(
                        SegmentModel {
                            symbol: spec_symbol(),
                            version: ver,
                            style: spec_bold_style(ansi_term::Colour::Blue),
                        },
                    ),
                },
            }
        },
    }
}

/// The name under which the host engine registers this module.
pub fn module_name() -> (r: &'static str)
    ensures
        r@ == "dotnet"@,
{
    "dotnet"
}

/// Assemble the module's rendered output from the directory listing and
/// the captured toolchain output.
pub fn module(listing: &Option<Vec<DirectoryEntry>>, toolchain_output: &Option<String>) -> (r:
    Option<Segment>)
    ensures
        opt_segment(r) == spec_module(opt_listing(*listing), opt_chars(*toolchain_output)),
{
    let entries = match listing {
        Some(entries) => entries,
        None => {
            return None;
        },
    };
    let dotnet_files = get_local_files_filtered(entries);
    if dotnet_files.len() == 0 {
        return None;
    }
    let raw = match toolchain_output {
        Some(raw) => raw,
        None => {
            return None;
        },
    };
    let version = match format_dotnet_version(raw.as_str()) {
        Some(version) => version,
        None => {
            return None;
        },
    };
    Some(
        Segment {
            symbol: String::from_str("\u{2022}NET "),
            version,
            style: bold_style(ansi_term::Colour::Blue),
        },
    )
}

proof fn lemma_filtered_empty_when_nothing_recognized(entries: Seq<DirectoryEntry>)
    requires
        forall|i: int| 0 <= i < entries.len() ==> classify_entry(entries[i]) is None,
    ensures
        spec_filtered(entries).len() == 0,
    decreases entries.len(),
{
    if entries.len() > 0 {
        lemma_filtered_empty_when_nothing_recognized(entries.drop_last());
    }
}

/// A directory in which no entry is recognized as .NET-relevant yields no
/// output, whatever the toolchain reported.
pub proof fn lemma_absent_without_evidence(entries: Seq<DirectoryEntry>, output: Option<Seq<char>>)
    requires
        forall|i: int| 0 <= i < entries.len() ==> classify_entry(entries[i]) is None,
    ensures
        spec_module(Some(entries), output) is None,
{
    lemma_filtered_empty_when_nothing_recognized(entries);
}

/// A directory with .NET evidence still yields no output when the
/// toolchain could not be run.
pub proof fn lemma_absent_without_toolchain(entries: Seq<DirectoryEntry>)
    requires
        spec_filtered(entries).len() > 0,
    ensures
        spec_module(Some(entries), None) is None,
{
}

/// Activation is idempotent: two activations against the same directory
/// listing and the same toolchain output render the same thing.
pub proof fn lemma_activation_idempotent(
    r1: Option<Segment>,
    r2: Option<Segment>,
    listing: Option<Seq<DirectoryEntry>>,
    output: Option<Seq<char>>,
)
    requires
        opt_segment(r1) == spec_module(listing, output),
        opt_segment(r2) == spec_module(listing, output),
    ensures
        opt_segment(r1) == opt_segment(r2),
{
}

} // verus!
