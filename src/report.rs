//! Running one file's outcome into a report, and the batch totals.
use vstd::prelude::*;

use crate::ledger::TestResult;

verus! {

/// How a sandbox run ended.
pub enum ExecutionOutcome {
    Success,
    /// An unhandled fault reached the top level; its text as the sandbox
    /// rendered it.
    Fault(String),
}

/// The cases extracted from one file, and whether extraction succeeded.
pub struct FileReport {
    pub results: Vec<TestResult>,
    pub extracted: bool,
}

/// The script that runs before a test file's own source: it resets the
/// ledger.
pub open spec fn source_prelude() -> Seq<char> {
    "\n// Reset test state at the start\nglobalThis.__andromeda_test_reset();\n\n// Run the test file\n"@
}

pub open spec fn source_epilogue() -> Seq<char> {
    "\n\n// Test execution completed\n"@
}

/// The source submitted to the sandbox: a ledger reset, then the file's
/// content verbatim.
pub fn wrap_source(content: &str) -> (r: String)
    ensures
        r@ == source_prelude() + content@ + source_epilogue(),
{
    let mut out = String::new();
    out.append(
        "\n// Reset test state at the start\nglobalThis.__andromeda_test_reset();\n\n// Run the test file\n",
    );
    out.append(content);
    out.append("\n\n// Test execution completed\n");
    out
}

/// The script evaluated in the same context after a successful run, to
/// read the ledger back.
pub fn harvest_source() -> (r: String)
    ensures
        r@ == "__andromeda_test_get_results()"@,
{
    let mut out = String::new();
    out.append("__andromeda_test_get_results()");
    out
}

pub open spec fn fault_text(message: Seq<char>) -> Seq<char> {
    "Test execution failed: "@ + message
}

/// One file's contribution. A fault discards whatever the file recorded and
/// gives the fault's text. After a clean run the extracted cases count; an
/// extraction that failed (`None`) counts as no cases, and is no fault.
pub fn file_report(outcome: ExecutionOutcome, extracted: Option<Vec<TestResult>>) -> (r: Result<
    FileReport,
    String,
>)
    ensures
        outcome is Fault ==> r is Err && r->Err_0@ == fault_text(outcome->Fault_0@),
        outcome is Success ==> r is Ok,
        outcome is Success && extracted is Some ==> r->Ok_0.results == extracted->0
            && r->Ok_0.extracted,
        outcome is Success && extracted is None ==> r->Ok_0.results@.len() == 0
            && !r->Ok_0.extracted,
{
    match outcome {
        ExecutionOutcome::Fault(message) => {
            let mut text = String::new();
            text.append("Test execution failed: ");
            text.append(message.as_str());
            Err(text)
        },
        ExecutionOutcome::Success => match extracted {
            Some(results) => Ok(FileReport { results, extracted: true }),
            None => Ok(FileReport { results: Vec::new(), extracted: false }),
        },
    }
}

/// Number of passing cases.
pub open spec fn count_passed(rs: Seq<TestResult>) -> nat
    decreases rs.len(),
{
    if rs.len() == 0 {
        0
    } else {
        count_passed(rs.drop_last()) + if rs.last().passed {
            1nat
        } else {
            0nat
        }
    }
}

/// Sum of the cases' durations.
pub open spec fn duration_sum(rs: Seq<TestResult>) -> nat
    decreases rs.len(),
{
    if rs.len() == 0 {
        0
    } else {
        duration_sum(rs.drop_last()) + rs.last().duration as nat
    }
}

proof fn lemma_count_passed_bound(rs: Seq<TestResult>)
    ensures
        count_passed(rs) <= rs.len(),
    decreases rs.len(),
{
    if rs.len() > 0 {
        lemma_count_passed_bound(rs.drop_last());
    }
}

/// Running totals of a batch. Failed cases and files that could not run
/// are counted apart.
pub struct Summary {
    pub total_tests: u64,
    pub passed_tests: u64,
    pub failed_tests: u64,
    pub file_failures: u64,
    pub total_duration: u128,
}

/// The totals after a file's cases are added.
pub open spec fn after_results(s: Summary, rs: Seq<TestResult>) -> Summary {
    Summary {
        total_tests: (s.total_tests + rs.len()) as u64,
        passed_tests: (s.passed_tests + count_passed(rs)) as u64,
        failed_tests: (s.failed_tests + (rs.len() - count_passed(rs))) as u64,
        file_failures: s.file_failures,
        total_duration: (s.total_duration + duration_sum(rs)) as u128,
    }
}

/// The totals after a file that could not run.
pub open spec fn after_failure(s: Summary) -> Summary {
    Summary { file_failures: (s.file_failures + 1) as u64, ..s }
}

/// Whether the totals can take a file's cases without overflow.
pub open spec fn fits_results(s: Summary, rs: Seq<TestResult>) -> bool {
    s.total_tests + rs.len() <= u64::MAX && s.passed_tests + rs.len() <= u64::MAX
        && s.failed_tests + rs.len() <= u64::MAX && s.total_duration + duration_sum(rs)
        <= u128::MAX
}

/// Whether the totals can take one file's report without overflow.
pub open spec fn fits_report(s: Summary, r: Result<FileReport, String>) -> bool {
    match r {
        Ok(report) => fits_results(s, report.results@),
        Err(_) => s.file_failures < u64::MAX,
    }
}

/// The totals after one file's report.
pub open spec fn after_report(s: Summary, r: Result<FileReport, String>) -> Summary {
    match r {
        Ok(report) => after_results(s, report.results@),
        Err(_) => after_failure(s),
    }
}

impl Summary {
    /// No files and no cases yet.
    pub fn new() -> (r: Summary)
        ensures
            r == (Summary {
                total_tests: 0,
                passed_tests: 0,
                failed_tests: 0,
                file_failures: 0,
                total_duration: 0,
            }),
    {
        Summary { total_tests: 0, passed_tests: 0, failed_tests: 0, file_failures: 0, total_duration: 0 }
    }

    /// Whether the totals can take these cases without overflow.
    pub fn can_record(&self, results: &Vec<TestResult>) -> (r: bool)
        ensures
            r == fits_results(*self, results@),
    {
        let n = results.len() as u128;
        if n > (u64::MAX - self.total_tests) as u128 || n > (u64::MAX - self.passed_tests) as u128
            || n > (u64::MAX - self.failed_tests) as u128 {
            return false;
        }
        let mut sum: u128 = 0;
        let mut i: usize = 0;
        while i < results.len()
            invariant
                i <= results@.len(),
                sum == duration_sum(results@.subrange(0, i as int)),
                sum <= u128::MAX - self.total_duration,
            decreases results@.len() - i,
        {
            assert(results@.subrange(0, i + 1).drop_last() =~= results@.subrange(0, i as int));
            let d = results[i].duration;
            if d > u128::MAX - self.total_duration - sum {
                proof {
                    lemma_duration_sum_prefix(results@, i + 1);
                }
                return false;
            }
            sum = sum + d;
            i += 1;
        }
        assert(results@.subrange(0, i as int) =~= results@);
        true
    }

    /// Adds a file's cases: each counts once, as passed or as failed.
    pub fn record_results(&mut self, results: &Vec<TestResult>)
        requires
            fits_results(*old(self), results@),
        ensures
            *final(self) == after_results(*old(self), results@),
    {
        let ghost s0 = *self;
        let mut i: usize = 0;
        while i < results.len()
            invariant
                i <= results@.len(),
                fits_results(s0, results@),
                *self == after_results(s0, results@.subrange(0, i as int)),
            decreases results@.len() - i,
        {
            let ghost pre = results@.subrange(0, i as int);
            assert(results@.subrange(0, i + 1).drop_last() =~= pre);
            proof {
                lemma_count_passed_bound(pre);
                lemma_duration_sum_prefix(results@, i + 1);
            }
            let r = &results[i];
            self.total_tests = self.total_tests + 1;
            if r.passed {
                self.passed_tests = self.passed_tests + 1;
            } else {
                self.failed_tests = self.failed_tests + 1;
            }
            self.total_duration = self.total_duration + r.duration;
            i += 1;
        }
        assert(results@.subrange(0, i as int) =~= results@);
    }

    /// Counts one file that could not run.
    pub fn record_file_failure(&mut self)
        requires
            old(self).file_failures < u64::MAX,
        ensures
            *final(self) == after_failure(*old(self)),
    {
        self.file_failures = self.file_failures + 1;
    }

    /// Adds one file's report where the totals can take it, and says whether
    /// they could; where not, the totals stay as they were.
    pub fn record(&mut self, report: &Result<FileReport, String>) -> (r: bool)
        ensures
            r == fits_report(*old(self), *report),
            r ==> *final(self) == after_report(*old(self), *report),
            !r ==> *final(self) == *old(self),
    {
        match report {
            Ok(file) => {
                if self.can_record(&file.results) {
                    self.record_results(&file.results);
                    true
                } else {
                    false
                }
            },
            Err(_) => {
                if self.file_failures < u64::MAX {
                    self.record_file_failure();
                    true
                } else {
                    false
                }
            },
        }
    }

    /// Whether every file ran and every case passed.
    pub fn succeeded(&self) -> (r: bool)
        ensures
            r == (self.failed_tests == 0 && self.file_failures == 0),
    {
        self.failed_tests == 0 && self.file_failures == 0
    }

    /// The process exit status: zero exactly when every file ran and every
    /// case passed.
    pub fn exit_code(&self) -> (r: i32)
        ensures
            r == 0 <==> (self.failed_tests == 0 && self.file_failures == 0),
            r == 0 || r == 1,
    {
        if self.succeeded() {
            0
        } else {
            1
        }
    }

    /// The total duration in the coarser unit of the summary line.
    pub fn duration_ms(&self) -> (r: u128)
        ensures
            r == self.total_duration / 1000,
    {
        self.total_duration / 1000
    }
}

/// A file that ran cleanly and recorded no case leaves every total as it
/// was: no case, and no file failure.
pub proof fn lemma_quiet_file_report(s: Summary, report: FileReport)
    requires
        report.results@.len() == 0,
    ensures
        after_report(s, Ok(report)) == s,
        fits_report(s, Ok(report)),
{
    assert(count_passed(report.results@) == 0);
    assert(duration_sum(report.results@) == 0);
}

/// A file that faulted counts as one file failure and adds no case, whatever
/// it recorded before the fault.
pub proof fn lemma_fault_report(s: Summary, text: String)
    requires
        s.file_failures < u64::MAX,
    ensures
        after_report(s, Err(text)).file_failures == s.file_failures + 1,
        after_report(s, Err(text)).total_tests == s.total_tests,
        after_report(s, Err(text)).passed_tests == s.passed_tests,
        after_report(s, Err(text)).failed_tests == s.failed_tests,
{
}

proof fn lemma_duration_sum_prefix(rs: Seq<TestResult>, k: int)
    requires
        0 <= k <= rs.len(),
    ensures
        duration_sum(rs.subrange(0, k)) <= duration_sum(rs),
    decreases rs.len(),
{
    if k < rs.len() {
        assert(rs.drop_last().subrange(0, k) =~= rs.subrange(0, k));
        lemma_duration_sum_prefix(rs.drop_last(), k);
    } else {
        assert(rs.subrange(0, k) =~= rs);
    }
}

} // verus!
