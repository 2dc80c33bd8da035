//! Background library jobs of the desktop shell: what a job is, its label and its status text.
use vstd::prelude::*;

use crate::text::{decimal, push_decimal};
use super::library::{LibraryEntry, LibraryTarget, RefreshSummary};

verus! {

/// One kind of background library job.
#[derive(Debug, Clone)]
pub enum WorkerCommandKind {
    /// Rescan the library.
    RefreshSnapshot,
    /// Refresh the metadata index.
    RefreshMetadata,
    /// Refresh covers of the targeted entries.
    RefreshCovers {
        /// Entries to work on.
        target: LibraryTarget,
    },
    /// Refresh cheats of the targeted entries.
    RefreshCheats {
        /// Entries to work on.
        target: LibraryTarget,
    },
    /// Refresh every cache.
    RefreshAll,
    /// Prepare a local ROM for play.
    MaterializeRom {
        /// Entry to load.
        entry: LibraryEntry,
    },
}

/// The label a job is reported under.
pub open spec fn spec_label(kind: WorkerCommandKind) -> Seq<char> {
    match kind {
        WorkerCommandKind::RefreshSnapshot => "Scan Library"@,
        WorkerCommandKind::RefreshMetadata => "Refresh Metadata"@,
        WorkerCommandKind::RefreshCovers { .. } => "Refresh Covers"@,
        WorkerCommandKind::RefreshCheats { .. } => "Refresh Cheats"@,
        WorkerCommandKind::RefreshAll => "Refresh All"@,
        WorkerCommandKind::MaterializeRom { .. } => "Load Game"@,
    }
}

/// The label a job is reported under.
pub fn label_for_kind(kind: &WorkerCommandKind) -> (l: &'static str)
    ensures
        l@ == spec_label(*kind),
{
    match kind {
        WorkerCommandKind::RefreshSnapshot => "Scan Library",
        WorkerCommandKind::RefreshMetadata => "Refresh Metadata",
        WorkerCommandKind::RefreshCovers { .. } => "Refresh Covers",
        WorkerCommandKind::RefreshCheats { .. } => "Refresh Cheats",
        WorkerCommandKind::RefreshAll => "Refresh All",
        WorkerCommandKind::MaterializeRom { .. } => "Load Game",
    }
}

/// Status shown after a metadata refresh wrote `count` records.
pub fn metadata_status(count: usize) -> (s: String)
    ensures
        s@ == "Refreshed metadata index ("@ + decimal(count as nat) + " records)."@,
{
    let mut s = "Refreshed metadata index (".to_owned();
    push_decimal(&mut s, count as u64);
    s.append(" records).");
    s
}

/// Status shown after a cover refresh wrote `count` files.
pub fn covers_status(count: usize) -> (s: String)
    ensures
        s@ == "Refreshed covers ("@ + decimal(count as nat) + " file(s))."@,
{
    let mut s = "Refreshed covers (".to_owned();
    push_decimal(&mut s, count as u64);
    s.append(" file(s)).");
    s
}

/// Status shown after a cheat refresh wrote `count` records.
pub fn cheats_status(count: usize) -> (s: String)
    ensures
        s@ == "Refreshed cheats ("@ + decimal(count as nat) + " record(s))."@,
{
    let mut s = "Refreshed cheats (".to_owned();
    push_decimal(&mut s, count as u64);
    s.append(" record(s)).");
    s
}

/// Status shown after refreshing every cache.
pub fn refresh_all_status(summary: &RefreshSummary) -> (s: String)
    ensures
        s@ == "Refreshed metadata "@ + decimal(summary.metadata_records as nat) + ", covers "@
            + decimal(summary.covers_written as nat) + ", cheats "@ + decimal(summary.cheat_records as nat) + "."@,
{
    let mut s = "Refreshed metadata ".to_owned();
    push_decimal(&mut s, summary.metadata_records as u64);
    s.append(", covers ");
    push_decimal(&mut s, summary.covers_written as u64);
    s.append(", cheats ");
    push_decimal(&mut s, summary.cheat_records as u64);
    s.append(".");
    s
}

} // verus!
