//! Classification of cleaned log lines.
//!
//! A line containing the literal substring `ERROR` is an error and always
//! counts toward failure. Otherwise a line containing `WARNING` is a warning,
//! and counts toward failure exactly when the run's policy says warnings do.
//! Every other line is clean. Matching is case-sensitive and by substring,
//! not by whole words.

use vstd::prelude::*;

verus! {

use vstd::string::*;

/// The needle occurs in the haystack starting at index `i`.
pub open spec fn contains_at(hay: Seq<char>, needle: Seq<char>, i: int) -> bool {
    &&& 0 <= i
    &&& i + needle.len() <= hay.len()
    &&& hay.subrange(i, i + needle.len() as int) == needle
}

/// The needle occurs somewhere in the haystack.
pub open spec fn contains_substr(hay: Seq<char>, needle: Seq<char>) -> bool {
    exists|i: int| contains_at(hay, needle, i)
}

/// The outcome of classifying one cleaned line under the run's policy.
#[derive(Clone, Copy, Debug, PartialEq, Eq, Structural)]
pub enum Verdict {
    /// The line contains `ERROR`; always a failure, reported in red.
    Error,
    /// The line contains `WARNING` (and no `ERROR`) and warnings count;
    /// a failure, reported in yellow.
    WarningCounted,
    /// The line contains `WARNING` (and no `ERROR`) but warnings do not
    /// count; not a failure, not reported.
    WarningIgnored,
    /// The line contains neither substring; not a failure, not reported.
    Clean,
}

impl Verdict {
    /// Whether this verdict counts toward the run's failure.
    pub open spec fn spec_counts_as_failure(self) -> bool {
        self == Verdict::Error || self == Verdict::WarningCounted
    }

    /// Whether this verdict counts toward the run's failure.
    pub fn counts_as_failure(&self) -> (b: bool)
        ensures
            b == self.spec_counts_as_failure(),
    {
        match self {
            Verdict::Error => true,
            Verdict::WarningCounted => true,
            Verdict::WarningIgnored => false,
            Verdict::Clean => false,
        }
    }

    /// Whether this verdict is reported to the console at all.
    pub open spec fn spec_is_reported(self) -> bool {
        self == Verdict::Error || self == Verdict::WarningCounted
    }

    /// Whether this verdict is reported to the console at all.
    pub fn is_reported(&self) -> (b: bool)
        ensures
            b == self.spec_is_reported(),
    {
        self.counts_as_failure()
    }
}

/// The verdict for one cleaned line: `ERROR` wins over `WARNING`, and a
/// warning's weight follows the policy flag.
pub open spec fn classify_spec(line: Seq<char>, fail_on_warnings: bool) -> Verdict {
    if contains_substr(line, "ERROR"@) {
        Verdict::Error
    } else if contains_substr(line, "WARNING"@) {
        if fail_on_warnings {
            Verdict::WarningCounted
        } else {
            Verdict::WarningIgnored
        }
    } else {
        Verdict::Clean
    }
}

/// Whether one cleaned line counts toward the run's failure.
pub open spec fn lint_spec(line: Seq<char>, fail_on_warnings: bool) -> bool {
    classify_spec(line, fail_on_warnings).spec_counts_as_failure()
}

/// A line containing `ERROR` counts as a failure whatever the policy says.
pub proof fn lemma_error_always_counts(line: Seq<char>, fail_on_warnings: bool)
    requires
        contains_substr(line, "ERROR"@),
    ensures
        lint_spec(line, fail_on_warnings),
{
}

/// On a line containing `WARNING` but not `ERROR`, failure equals the
/// policy flag.
pub proof fn lemma_warning_follows_policy(line: Seq<char>, fail_on_warnings: bool)
    requires
        contains_substr(line, "WARNING"@),
        !contains_substr(line, "ERROR"@),
    ensures
        lint_spec(line, fail_on_warnings) == fail_on_warnings,
{
}

/// A line containing neither substring never counts as a failure.
pub proof fn lemma_quiet_line_never_counts(line: Seq<char>, fail_on_warnings: bool)
    requires
        !contains_substr(line, "ERROR"@),
        !contains_substr(line, "WARNING"@),
    ensures
        !lint_spec(line, fail_on_warnings),
{
}

/// Decides whether `needle` occurs in `hay` as a contiguous substring.
pub fn contains_token(hay: &str, needle: &str) -> (b: bool)
    ensures
        b == contains_substr(hay@, needle@),
{
    let n: usize = hay.unicode_len();
    let m: usize = needle.unicode_len();
    if m > n {
        proof {
            assert forall|t: int| !contains_at(hay@, needle@, t) by {}
        }
        return false;
    }
    if m == 0 {
        proof {
            assert(hay@.subrange(0, 0) =~= needle@);
            assert(contains_at(hay@, needle@, 0));
        }
        return true;
    }
    let mut i: usize = 0;
    while i <= n - m
        invariant
            n == hay@.len(),
            m == needle@.len(),
            1 <= m <= n,
            i <= n - m + 1,
            forall|t: int| 0 <= t < i ==> !contains_at(hay@, needle@, t),
        decreases n - m - i + 1,
    {
        let mut j: usize = 0;
        let mut matched: bool = true;
        while j < m
            invariant
                n == hay@.len(),
                m == needle@.len(),
                m <= n,
                i <= n - m,
                j <= m,
                matched ==> forall|t: int| 0 <= t < j ==> hay@[i + t] == needle@[t],
                !matched ==> !contains_at(hay@, needle@, i as int),
            decreases m - j,
        {
            if matched && hay.get_char(i + j) != needle.get_char(j) {
                proof {
                    if contains_at(hay@, needle@, i as int) {
                        assert(hay@.subrange(i as int, i + needle@.len() as int)[j as int]
                            == hay@[i + j]);
                    }
                }
                matched = false;
            }
            j = j + 1;
        }
        if matched {
            proof {
                assert(hay@.subrange(i as int, i + needle@.len() as int) =~= needle@);
                assert(contains_at(hay@, needle@, i as int));
            }
            return true;
        }
        i = i + 1;
    }
    proof {
        assert forall|t: int| !contains_at(hay@, needle@, t) by {
            if 0 <= t < i {
                assert(!contains_at(hay@, needle@, t));
            }
        }
    }
    false
}

/// Classifies one cleaned line under the run's policy.
pub fn classify(line: &str, fail_on_warnings: bool) -> (v: Verdict)
    ensures
        v == classify_spec(line@, fail_on_warnings),
{
    if contains_token(line, "ERROR") {
        Verdict::Error
    } else if contains_token(line, "WARNING") {
        if fail_on_warnings {
            Verdict::WarningCounted
        } else {
            Verdict::WarningIgnored
        }
    } else {
        Verdict::Clean
    }
}

/// Reports whether the line counts toward the run's failure: `ERROR` always
/// does, `WARNING` does exactly when the policy flag is set.
pub fn lint(line: &str, fail_on_warnings: bool) -> (b: bool)
    ensures
        b == lint_spec(line@, fail_on_warnings),
{
    classify(line, fail_on_warnings).counts_as_failure()
}

} // verus!
