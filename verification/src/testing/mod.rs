//! Compliance and regression harness: suite configuration, vector evaluation and run tallies.
pub mod cpu_65816;
pub mod rom;
pub mod spc700;

use vstd::prelude::*;

use crate::text::{lower_digit, lower_digit_char, lower_hex, push_char};

verus! {

/// Disk locations for locally stored compliance corpora.
#[derive(Debug, Clone)]
pub struct ComplianceSuiteConfig {
    /// Directory containing 65816 single-step JSON vectors.
    pub cpu_65816_dir: Option<String>,
    /// Directory containing SPC700 single-step JSON vectors.
    pub spc700_dir: Option<String>,
    /// Directory containing ROM-based regression suites.
    pub rom_suite_dir: Option<String>,
}

impl Default for ComplianceSuiteConfig {
    fn default() -> (c: Self)
        ensures
            c.cpu_65816_dir is None,
            c.spc700_dir is None,
            c.rom_suite_dir is None,
    {
        ComplianceSuiteConfig { cpu_65816_dir: None, spc700_dir: None, rom_suite_dir: None }
    }
}

impl ComplianceSuiteConfig {
    /// Return true when any compliance suite path has been configured.
    pub fn is_configured(&self) -> (r: bool)
        ensures
            r == (self.cpu_65816_dir is Some || self.spc700_dir is Some || self.rom_suite_dir is Some),
    {
        self.cpu_65816_dir.is_some() || self.spc700_dir.is_some() || self.rom_suite_dir.is_some()
    }

    /// Resolve a suite path if present.
    pub fn suite_path<'a>(&self, path: &'a Option<String>) -> (r: Option<&'a str>)
        ensures
            match (r, path) {
                (Some(s), Some(p)) => s@ == p@,
                (None, None) => true,
                _ => false,
            },
    {
        match path {
            Some(p) => Some(p.as_str()),
            None => None,
        }
    }
}

/// Coarse summary of a discovered suite directory.
#[derive(Debug, Clone)]
pub struct SuiteSummary {
    /// Human-readable suite name.
    pub suite_name: String,
    /// Number of JSON files discovered.
    pub file_count: usize,
    /// Number of vectors parsed successfully.
    pub vector_count: usize,
}

/// Aggregate outcome from executing a batch of compliance vectors.
#[derive(Debug, Clone)]
pub struct RunSummary {
    /// Human-readable suite name.
    pub suite_name: String,
    /// Number of executed vectors.
    pub total: usize,
    /// Number of vectors with no mismatches.
    pub passed: usize,
    /// Number of vectors with one or more mismatches.
    pub failed: usize,
    /// Example failures retained for diagnostics.
    pub failures: Vec<VectorFailure>,
}

/// One failing vector with human-readable mismatch reasons.
#[derive(Debug, Clone)]
pub struct VectorFailure {
    /// Human-readable vector label.
    pub label: String,
    /// Reasons the vector failed.
    pub reasons: Vec<String>,
}

/// A retained failure as text: its label and its reasons.
pub type FailureText = (Seq<char>, Seq<Seq<char>>);

/// The failures as text.
pub open spec fn failures_text(failures: Seq<VectorFailure>) -> Seq<FailureText> {
    failures.map_values(|f: VectorFailure| (f.label@, f.reasons.deep_view()))
}

/// Number of outcomes with no reason.
pub open spec fn passed_count(outcomes: Seq<Seq<Seq<char>>>) -> nat
    decreases outcomes.len(),
{
    if outcomes.len() == 0 {
        0
    } else {
        passed_count(outcomes.drop_last()) + if outcomes.last().len() == 0 { 1nat } else { 0nat }
    }
}

/// The failing outcomes, in order and paired with their labels, keeping the first `max`.
pub open spec fn retained(labels: Seq<Seq<char>>, outcomes: Seq<Seq<Seq<char>>>, max: nat) -> Seq<FailureText>
    decreases outcomes.len(),
{
    if outcomes.len() == 0 {
        seq![]
    } else {
        let earlier = retained(labels, outcomes.drop_last(), max);
        if outcomes.last().len() > 0 && earlier.len() < max {
            earlier.push((labels[outcomes.len() - 1], outcomes.last()))
        } else {
            earlier
        }
    }
}

/// `summary` reports a run of `outcomes` labelled by `labels`.
pub open spec fn reports(
    summary: RunSummary,
    labels: Seq<Seq<char>>,
    outcomes: Seq<Seq<Seq<char>>>,
    max_failures: nat,
) -> bool {
    &&& summary.total == outcomes.len()
    &&& summary.passed == passed_count(outcomes)
    &&& summary.failed == outcomes.len() - passed_count(outcomes)
    &&& failures_text(summary.failures@) == retained(labels, outcomes, max_failures)
}

/// At most as many outcomes pass as there are.
pub proof fn lemma_passed_count_bound(outcomes: Seq<Seq<Seq<char>>>)
    ensures
        passed_count(outcomes) <= outcomes.len(),
    decreases outcomes.len(),
{
    if outcomes.len() > 0 {
        lemma_passed_count_bound(outcomes.drop_last());
    }
}

/// A run keeps the first `max` failing outcomes: as many as fail, but never more than `max`.
pub proof fn lemma_retained_failures(labels: Seq<Seq<char>>, outcomes: Seq<Seq<Seq<char>>>, max: nat)
    ensures
        retained(labels, outcomes, max).len() == if outcomes.len() - passed_count(outcomes) < max {
            outcomes.len() - passed_count(outcomes)
        } else {
            max as int
        },
    decreases outcomes.len(),
{
    lemma_passed_count_bound(outcomes);
    if outcomes.len() > 0 {
        lemma_retained_failures(labels, outcomes.drop_last(), max);
        lemma_passed_count_bound(outcomes.drop_last());
    }
}

/// The counts of a report agree: passes and failures make up the total, and the failures kept
/// are as many as failed, but never more than the cap.
pub open spec fn consistent_counts(summary: RunSummary, max_failures: nat) -> bool {
    &&& summary.passed + summary.failed == summary.total
    &&& summary.failures@.len() == if summary.failed < max_failures { summary.failed as nat } else { max_failures }
}

/// Every report of a run has consistent counts.
pub proof fn lemma_report_counts(summary: RunSummary, labels: Seq<Seq<char>>, outcomes: Seq<Seq<Seq<char>>>, max_failures: nat)
    requires
        reports(summary, labels, outcomes, max_failures),
    ensures
        consistent_counts(summary, max_failures),
{
    lemma_passed_count_bound(outcomes);
    lemma_retained_failures(labels, outcomes, max_failures);
    assert(failures_text(summary.failures@).len() == summary.failures@.len());
}

/// Running counts of a batch being evaluated.
pub(crate) struct Tally {
    pub(crate) passed: usize,
    pub(crate) failures: Vec<VectorFailure>,
}

impl Tally {
    /// Nothing evaluated yet.
    pub(crate) fn new() -> (t: Self)
        ensures
            t.passed == 0,
            t.failures@.len() == 0,
    {
        Tally { passed: 0, failures: Vec::new() }
    }

    /// Count one more outcome, retaining it while fewer than `max` failures are kept.
    pub(crate) fn record(&mut self, label: String, reasons: Vec<String>, max: usize, Ghost(labels): Ghost<Seq<Seq<char>>>, Ghost(outcomes): Ghost<Seq<Seq<Seq<char>>>>)
        requires
            old(self).passed == passed_count(outcomes),
            failures_text(old(self).failures@) == retained(labels, outcomes, max as nat),
            labels.len() > outcomes.len(),
            labels[outcomes.len() as int] == label@,
            outcomes.len() < usize::MAX,
        ensures
            final(self).passed == passed_count(outcomes.push(reasons.deep_view())),
            failures_text(final(self).failures@) == retained(labels, outcomes.push(reasons.deep_view()), max as nat),
    {
        let ghost o2 = outcomes.push(reasons.deep_view());
        assert(o2.drop_last() =~= outcomes);
        proof { lemma_passed_count_bound(outcomes); }
        if reasons.len() == 0 {
            self.passed = self.passed + 1;
        } else if self.failures.len() < max {
            let ghost before = self.failures@;
            self.failures.push(VectorFailure { label, reasons });
            assert(failures_text(self.failures@) =~= failures_text(before).push((labels[outcomes.len() as int], o2.last())));
        }
    }

    /// The summary of the counted outcomes.
    pub(crate) fn finish(self, suite_name: String, total: usize, Ghost(labels): Ghost<Seq<Seq<char>>>, Ghost(outcomes): Ghost<Seq<Seq<Seq<char>>>>, max: usize) -> (s: RunSummary)
        requires
            self.passed == passed_count(outcomes),
            failures_text(self.failures@) == retained(labels, outcomes, max as nat),
            total == outcomes.len(),
        ensures
            reports(s, labels, outcomes, max as nat),
            s.suite_name == suite_name,
    {
        proof { lemma_passed_count_bound(outcomes); }
        RunSummary { suite_name, total, passed: self.passed, failed: total - self.passed, failures: self.failures }
    }
}

/// Append the two lower-case hexadecimal digits of `b`.
pub(crate) fn push_lower_hex_byte(s: &mut String, b: u8)
    ensures
        final(s)@ == old(s)@ + lower_hex(seq![b]),
{
    push_char(s, lower_digit_char(b / 16));
    push_char(s, lower_digit_char(b % 16));
    assert(seq![b].drop_last() =~= Seq::<u8>::empty());
    assert(seq![b].last() == b);
    assert(lower_hex(Seq::<u8>::empty()) == Seq::<char>::empty());
    assert(old(s)@ + lower_hex(seq![b]) =~= old(s)@.push(lower_digit((b / 16) as nat)).push(lower_digit((b % 16) as nat)));
}

/// A message: `prefix`, then `text` and a closing backquote.
pub(crate) fn quoted_message(prefix: &str, text: &str) -> (m: String)
    ensures
        m@ == prefix@ + text@ + "`"@,
{
    let mut m = prefix.to_owned();
    m.append(text);
    m.append("`");
    m
}

} // verus!
