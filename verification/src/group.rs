//! A group: the cases that follow one `Group:` row, run one after the
//! other against one shared context.

use vstd::prelude::*;
use crate::case::TestCase;
use crate::context::TestCtx;
use crate::data::TestResult;
use crate::events::{TestGroupBegin, TestGroupEnd};
use crate::text::{append_str, chars_of, decimal, digits, push_all, string_of};

verus! {

/// A group of related test cases and the counts of how they ended.
#[derive(Debug)]
pub struct TestGroup {
    pub name: String,
    pub test_cases: Vec<TestCase>,
    pub group_ctx: TestCtx,
    pub total: usize,
    pub passed: usize,
    pub failed: usize,
    pub skipped: usize,
    /// Milliseconds spent in requests.
    pub exec_duration: u64,
}

/// The summary line of a group or suite.
pub open spec fn counts_text(total: usize, passed: usize, failed: usize, skipped: usize) -> Seq<
    char,
> {
    "Total: "@ + digits(total as nat) + ", Passed: "@ + digits(passed as nat) + ", Failed: "@
        + digits(failed as nat) + ", Skipped: "@ + digits(skipped as nat)
}

/// Writes the counts of a summary line.
pub fn write_counts(out: &mut Vec<char>, total: usize, passed: usize, failed: usize, skipped: usize)
    ensures
        final(out)@ == old(out)@ + counts_text(total, passed, failed, skipped),
{
    let ghost before = out@;
    append_str(out, "Total: ");
    let t = decimal(total as u64);
    push_all(out, &t);
    append_str(out, ", Passed: ");
    let p = decimal(passed as u64);
    push_all(out, &p);
    append_str(out, ", Failed: ");
    let f = decimal(failed as u64);
    push_all(out, &f);
    append_str(out, ", Skipped: ");
    let s = decimal(skipped as u64);
    push_all(out, &s);
    assert(out@ =~= before + counts_text(total, passed, failed, skipped));
}

impl TestGroup {
    /// Every case recorded was counted once, under the way it ended.
    pub open spec fn well_formed(&self) -> bool {
        &&& self.total == self.test_cases@.len()
        &&& self.passed + self.failed + self.skipped == self.total
    }

    /// A group with a fresh context and nothing counted.
    pub fn new(group_name: &str) -> (g: Self)
        ensures
            g.well_formed(),
            g.name@ == group_name@,
            g.total == 0,
            g.test_cases@.len() == 0,
            g.group_ctx.jwt_token is None,
            g.group_ctx.exec_duration == 0,
            g.exec_duration == 0,
    {
        TestGroup {
            name: group_name.to_owned(),
            test_cases: Vec::new(),
            group_ctx: TestCtx::new(),
            total: 0,
            passed: 0,
            failed: 0,
            skipped: 0,
            exec_duration: 0,
        }
    }

    /// The name of the group.
    pub fn name(&self) -> (r: &str)
        ensures
            r@ == self.name@,
    {
        self.name.as_str()
    }

    /// Milliseconds spent in requests.
    pub fn exec_duration(&self) -> (r: u64)
        ensures
            r == self.exec_duration,
    {
        self.exec_duration
    }

    /// Records a case that has run to its end with `result`: the case is
    /// kept, counted once whatever the number of its iterations, and the
    /// duration of its last request added to the group's.
    pub fn exec(&mut self, tc: TestCase, result: TestResult)
        requires
            old(self).well_formed(),
            result != TestResult::NotYetTested,
            old(self).exec_duration + old(self).group_ctx.exec_duration <= u64::MAX,
        ensures
            final(self).well_formed(),
            final(self).passed + final(self).failed + final(self).skipped == final(self).total,
            final(self).test_cases@ == old(self).test_cases@.push(tc),
            final(self).total == old(self).total + 1,
            final(self).passed == old(self).passed + (if result == TestResult::Passed {
                1int
            } else {
                0int
            }),
            final(self).failed == old(self).failed + (if result == TestResult::Failed {
                1int
            } else {
                0int
            }),
            final(self).skipped == old(self).skipped + (if result == TestResult::Skipped {
                1int
            } else {
                0int
            }),
            final(self).exec_duration == old(self).exec_duration + old(self).group_ctx.exec_duration,
            final(self).name == old(self).name,
            final(self).group_ctx == old(self).group_ctx,
    {
        self.test_cases.push(tc);
        self.total = self.test_cases.len();
        match result {
            TestResult::Passed => {
                self.passed = self.passed + 1;
            },
            TestResult::Failed => {
                self.failed = self.failed + 1;
            },
            _ => {
                self.skipped = self.skipped + 1;
            },
        }
        self.exec_duration = self.exec_duration + self.group_ctx.exec_duration;
    }

    /// The group's summary line.
    pub fn stats_line(&self) -> (r: String)
        ensures
            r@ == "Group Summary: { Name: "@ + self.name@ + ", "@ + counts_text(
                self.total,
                self.passed,
                self.failed,
                self.skipped,
            ) + " }"@,
    {
        let mut out = chars_of("Group Summary: { Name: ");
        append_str(&mut out, self.name.as_str());
        append_str(&mut out, ", ");
        write_counts(&mut out, self.total, self.passed, self.failed, self.skipped);
        append_str(&mut out, " }");
        string_of(&out)
    }

    /// The data of the event that opens the group.
    pub fn get_start_evt_data(&self) -> (e: TestGroupBegin)
        ensures
            e.iteration_id@ == "1"@,
            e.group_name@ == self.name@,
    {
        TestGroupBegin { iteration_id: "1".to_owned(), group_name: self.name.clone() }
    }

    /// The data of the event that closes the group.
    pub fn get_end_evt_data(&self) -> (e: TestGroupEnd)
        ensures
            e.iteration_id@ == "1"@,
            e.group_name@ == self.name@,
            e.exec_duration == self.exec_duration,
    {
        TestGroupEnd {
            iteration_id: "1".to_owned(),
            group_name: self.name.clone(),
            exec_duration: self.exec_duration,
        }
    }
}

} // verus!
