//! Whole-log processing: the computational core of a run.
//!
//! Each raw line is cleaned of escape sequences and classified; the run
//! fails exactly when some line's verdict counts as a failure.

use vstd::prelude::*;

verus! {

use vstd::string::*;
use crate::classify::{classify, classify_spec, lint_spec, Verdict};
use crate::escape::{remove_ansi_escape_codes, strip_spec};

/// One processed line: its cleaned text and its verdict.
pub struct LineOutcome {
    /// The line with every escape sequence removed.
    pub cleaned: String,
    /// The verdict on the cleaned line.
    pub verdict: Verdict,
}

/// The result of a whole run over a log.
pub struct LogReport {
    /// One outcome per input line, in input order.
    pub lines: Vec<LineOutcome>,
    /// Whether any line's verdict counts as a failure.
    pub has_issues: bool,
}

/// Cleans and classifies every line of the log and reports whether any
/// line counts as a failure.
pub fn check_log(lines: &Vec<String>, fail_on_warnings: bool) -> (r: LogReport)
    ensures
        r.lines@.len() == lines@.len(),
        forall|i: int|
            0 <= i < lines@.len() ==> (#[trigger] r.lines@[i]).cleaned@ == strip_spec(lines@[i]@),
        forall|i: int|
            0 <= i < lines@.len() ==> (#[trigger] r.lines@[i]).verdict == classify_spec(
                strip_spec(lines@[i]@),
                fail_on_warnings,
            ),
        r.has_issues == exists|i: int|
            0 <= i < lines@.len() && #[trigger] lint_spec(strip_spec(lines@[i]@), fail_on_warnings),
{
    let mut outcomes: Vec<LineOutcome> = Vec::new();
    let mut has_issues: bool = false;
    let mut k: usize = 0;
    while k < lines.len()
        invariant
            k <= lines@.len(),
            outcomes@.len() == k,
            forall|i: int|
                0 <= i < k ==> (#[trigger] outcomes@[i]).cleaned@ == strip_spec(lines@[i]@),
            forall|i: int|
                0 <= i < k ==> (#[trigger] outcomes@[i]).verdict == classify_spec(
                    strip_spec(lines@[i]@),
                    fail_on_warnings,
                ),
            has_issues == exists|i: int|
                0 <= i < k && #[trigger] lint_spec(strip_spec(lines@[i]@), fail_on_warnings),
        decreases lines@.len() - k,
    {
        let cleaned = remove_ansi_escape_codes(lines[k].as_str());
        let verdict = classify(cleaned.as_str(), fail_on_warnings);
        let counts = verdict.counts_as_failure();
        proof {
            if counts {
                assert(lint_spec(strip_spec(lines@[k as int]@), fail_on_warnings));
            }
        }
        has_issues = has_issues || counts;
        outcomes.push(LineOutcome { cleaned, verdict });
        k = k + 1;
    }
    LogReport { lines: outcomes, has_issues }
}

} // verus!
