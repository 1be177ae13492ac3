//! The suite: which rows open a group, which groups are wanted, which rows
//! are cases, and the totals over the groups that have run.

use vstd::prelude::*;
use crate::config::Config;
use crate::data::{pairs_view, TestResult};
use crate::events::{span_after, step, well_nested, Span, Tag, TestSuiteBegin, TestSuiteEnd};
use crate::group::{counts_text, write_counts, TestGroup};
use crate::placeholders::{strip_from, trim_range, trimmed};
use crate::row_parser::Cell;
use crate::text::{chars_of, matches_at, occurs_at, same_text, string_of};

verus! {

/// The groups that have run, and the totals over them.
#[derive(Debug)]
pub struct TestSuite {
    pub test_groups: Vec<TestGroup>,
    pub total: usize,
    pub passed: usize,
    pub failed: usize,
    pub skipped: usize,
    /// Milliseconds spent in requests.
    pub exec_duration: u64,
}

/// What to do with one row of a sheet.
#[derive(Debug)]
pub enum RowAction {
    /// The row lies outside the rows that are read.
    Skip,
    /// The row opens a group that is wanted: close the group that is open,
    /// if any, and open the one named.
    StartGroup(String),
    /// The row opens a group that is not wanted: close the group that is
    /// open, if any, and open none.
    CloseGroup,
    /// The row is a case of the open group.
    Dispatch,
    /// The row is a case, and no group is open.
    Ignore,
}

/// A row action with its text as a character sequence.
pub enum RowActionView {
    Skip,
    StartGroup(Seq<char>),
    CloseGroup,
    Dispatch,
    Ignore,
}

/// The view of a row action.
pub open spec fn action_view(a: RowAction) -> RowActionView {
    match a {
        RowAction::Skip => RowActionView::Skip,
        RowAction::StartGroup(n) => RowActionView::StartGroup(n@),
        RowAction::CloseGroup => RowActionView::CloseGroup,
        RowAction::Dispatch => RowActionView::Dispatch,
        RowAction::Ignore => RowActionView::Ignore,
    }
}

/// The `(worksheet, group)` pair that one selector stands for on the sheet
/// `default_worksheet`.
pub open spec fn selector_pair(g: (Option<String>, String), default_worksheet: Seq<char>) -> (
    Seq<char>,
    Seq<char>,
) {
    match g.0 {
        Some(w) => (w@, g.1@),
        None => (default_worksheet, g.1@),
    }
}

/// The `(worksheet, group)` pairs that the configuration selects.
pub open spec fn selected(groups: Option<Vec<(Option<String>, String)>>, default_worksheet: Seq<char>) -> Seq<
    (Seq<char>, Seq<char>),
> {
    match groups {
        Some(v) => Seq::new(v@.len(), |i: int| selector_pair(v@[i], default_worksheet)),
        None => Seq::empty(),
    }
}

/// Whether the group `name` of `sheet` is to run: every group is where
/// nothing is selected, else those selected.
pub open spec fn allows(selectors: Seq<(Seq<char>, Seq<char>)>, sheet: Seq<char>, name: Seq<char>) -> bool {
    selectors.len() == 0 || exists|i: int| 0 <= i < selectors.len() && selectors[i] == (sheet, name)
}

/// Whether the row `index` is read. Row bounds count only when a single
/// worksheet was asked for; without them reading starts at row 1.
pub open spec fn row_in_range(config: Config, index: usize) -> bool {
    if config.worksheet is Some {
        &&& index >= (match config.start_row {
            Some(n) => n,
            None => 1,
        })
        &&& match config.end_row {
            Some(n) => index <= n,
            None => true,
        }
    } else {
        index >= 1
    }
}

/// The text of the first cell; empty where it holds no string.
pub open spec fn first_text(cell: Cell) -> Seq<char> {
    match cell {
        Cell::Text(s) => s@,
        _ => Seq::empty(),
    }
}

/// Whether a row is a control row that opens a group.
pub open spec fn is_group_header(first: Seq<char>) -> bool {
    occurs_at(first, 0, "Group:"@)
}

/// The name that a group header gives: what follows the prefix, trimmed.
pub open spec fn group_name(first: Seq<char>) -> Seq<char> {
    trimmed(first, strip_from(first, 0, "Group:"@), first.len() as int)
}

/// What is done with a row.
pub open spec fn row_action(
    config: Config,
    index: usize,
    first: Seq<char>,
    has_group: bool,
    sheet: Seq<char>,
    selectors: Seq<(Seq<char>, Seq<char>)>,
) -> RowActionView {
    if !row_in_range(config, index) {
        RowActionView::Skip
    } else if is_group_header(first) {
        if allows(selectors, sheet, group_name(first)) {
            RowActionView::StartGroup(group_name(first))
        } else {
            RowActionView::CloseGroup
        }
    } else if has_group {
        RowActionView::Dispatch
    } else {
        RowActionView::Ignore
    }
}


/// The first cells of the rows of a sheet, as texts.
pub open spec fn first_texts(firsts: Seq<Cell>) -> Seq<Seq<char>> {
    Seq::new(firsts.len(), |i: int| first_text(firsts[i]))
}

/// Whether a group is open after the first `n` rows: the last header row
/// among them that is read opened one that is wanted.
pub open spec fn open_after(
    config: Config,
    firsts: Seq<Seq<char>>,
    n: int,
    sheet: Seq<char>,
    selectors: Seq<(Seq<char>, Seq<char>)>,
) -> bool
    decreases n,
{
    if n <= 0 || n > firsts.len() {
        false
    } else {
        let before = open_after(config, firsts, n - 1, sheet, selectors);
        match row_action(config, (n - 1) as usize, firsts[n - 1], before, sheet, selectors) {
            RowActionView::StartGroup(_) => true,
            RowActionView::CloseGroup => false,
            _ => before,
        }
    }
}

/// What is done with the row `i` of a sheet.
pub open spec fn planned(
    config: Config,
    firsts: Seq<Seq<char>>,
    i: int,
    sheet: Seq<char>,
    selectors: Seq<(Seq<char>, Seq<char>)>,
) -> RowActionView {
    row_action(
        config,
        i as usize,
        firsts[i],
        open_after(config, firsts, i, sheet, selectors),
        sheet,
        selectors,
    )
}

/// The row `j` opens a wanted group and no row after it and before `n`
/// opens or closes one.
pub open spec fn opened_at(
    config: Config,
    firsts: Seq<Seq<char>>,
    j: int,
    n: int,
    sheet: Seq<char>,
    selectors: Seq<(Seq<char>, Seq<char>)>,
) -> bool {
    &&& 0 <= j < n
    &&& planned(config, firsts, j, sheet, selectors) is StartGroup
    &&& allows(selectors, sheet, group_name(firsts[j]))
    &&& forall|k: int|
        j < k < n ==> !(#[trigger] planned(config, firsts, k, sheet, selectors) is StartGroup)
            && !(planned(config, firsts, k, sheet, selectors) is CloseGroup)
}

proof fn lemma_open_was_opened(
    config: Config,
    firsts: Seq<Seq<char>>,
    n: int,
    sheet: Seq<char>,
    selectors: Seq<(Seq<char>, Seq<char>)>,
)
    requires
        0 <= n <= firsts.len(),
        firsts.len() <= usize::MAX,
        open_after(config, firsts, n, sheet, selectors),
    ensures
        exists|j: int| #[trigger] opened_at(config, firsts, j, n, sheet, selectors),
    decreases n,
{
    if n > 0 {
        let last = planned(config, firsts, n - 1, sheet, selectors);
        if last is StartGroup {
            assert(opened_at(config, firsts, n - 1, n, sheet, selectors));
        } else {
            lemma_open_was_opened(config, firsts, n - 1, sheet, selectors);
            let j = choose|j: int| #[trigger] opened_at(config, firsts, j, n - 1, sheet, selectors);
            assert(opened_at(config, firsts, j, n, sheet, selectors));
        }
    }
}

/// A row is run as a case only inside a group that is wanted: some row
/// before it opens a group that the selectors allow, and no row between
/// the two opens or closes a group.
pub proof fn lemma_cases_run_in_wanted_groups(
    config: Config,
    firsts: Seq<Seq<char>>,
    i: int,
    sheet: Seq<char>,
    selectors: Seq<(Seq<char>, Seq<char>)>,
)
    requires
        0 <= i < firsts.len(),
        firsts.len() <= usize::MAX,
        planned(config, firsts, i, sheet, selectors) is Dispatch,
    ensures
        exists|j: int| #[trigger] opened_at(config, firsts, j, i, sheet, selectors),
{
    lemma_open_was_opened(config, firsts, i, sheet, selectors);
}

/// One step of the run of a sheet.
#[derive(Debug)]
pub enum SheetStep {
    /// The suite begins.
    BeginSuite,
    /// The group named begins, with a fresh context.
    BeginGroup(String),
    /// The row with this index is run as a case of the open group.
    RunCase(usize),
    /// The group named, which is the open one, ends.
    EndGroup(String),
    /// The suite ends.
    EndSuite,
}

/// A step with its text as a character sequence.
pub enum StepView {
    BeginSuite,
    BeginGroup(Seq<char>),
    RunCase(int),
    EndGroup(Seq<char>),
    EndSuite,
}

/// The view of a step.
pub open spec fn step_view(s: SheetStep) -> StepView {
    match s {
        SheetStep::BeginSuite => StepView::BeginSuite,
        SheetStep::BeginGroup(n) => StepView::BeginGroup(n@),
        SheetStep::RunCase(i) => StepView::RunCase(i as int),
        SheetStep::EndGroup(n) => StepView::EndGroup(n@),
        SheetStep::EndSuite => StepView::EndSuite,
    }
}

/// The views of a list of steps.
pub open spec fn steps_view(v: Seq<SheetStep>) -> Seq<StepView> {
    Seq::new(v.len(), |i: int| step_view(v[i]))
}

/// The name of the group that the last header among the first `n` rows
/// opened.
pub open spec fn open_name(
    config: Config,
    firsts: Seq<Seq<char>>,
    n: int,
    sheet: Seq<char>,
    selectors: Seq<(Seq<char>, Seq<char>)>,
) -> Seq<char>
    decreases n,
{
    if n <= 0 || n > firsts.len() {
        Seq::empty()
    } else {
        match planned(config, firsts, n - 1, sheet, selectors) {
            RowActionView::StartGroup(name) => name,
            _ => open_name(config, firsts, n - 1, sheet, selectors),
        }
    }
}

/// The step that ends the open group, if one is open.
pub open spec fn closing(open: bool, name: Seq<char>) -> Seq<StepView> {
    if open {
        seq![StepView::EndGroup(name)]
    } else {
        Seq::empty()
    }
}

/// The steps that the row `i` gives: a header ends the group that is open
/// and, where its own group is wanted, begins that; a case row of an open
/// group is run; any other row gives nothing.
pub open spec fn row_steps(action: RowActionView, open: bool, name: Seq<char>, i: int) -> Seq<
    StepView,
> {
    match action {
        RowActionView::StartGroup(g) => closing(open, name).push(StepView::BeginGroup(g)),
        RowActionView::CloseGroup => closing(open, name),
        RowActionView::Dispatch => seq![StepView::RunCase(i)],
        _ => Seq::empty(),
    }
}

/// The steps up to and with the row `n - 1`, the beginning of the suite
/// first.
pub open spec fn steps_upto(
    config: Config,
    firsts: Seq<Seq<char>>,
    n: int,
    sheet: Seq<char>,
    selectors: Seq<(Seq<char>, Seq<char>)>,
) -> Seq<StepView>
    decreases n,
{
    if n <= 0 || n > firsts.len() {
        seq![StepView::BeginSuite]
    } else {
        steps_upto(config, firsts, n - 1, sheet, selectors) + row_steps(
            planned(config, firsts, n - 1, sheet, selectors),
            open_after(config, firsts, n - 1, sheet, selectors),
            open_name(config, firsts, n - 1, sheet, selectors),
            n - 1,
        )
    }
}

/// The run of a sheet, step by step: the suite begins, the rows give
/// their steps in order, the group left open by the last row ends, and
/// the suite ends.
pub open spec fn schedule(
    config: Config,
    firsts: Seq<Seq<char>>,
    sheet: Seq<char>,
    selectors: Seq<(Seq<char>, Seq<char>)>,
) -> Seq<StepView> {
    let n = firsts.len() as int;
    steps_upto(config, firsts, n, sheet, selectors) + closing(
        open_after(config, firsts, n, sheet, selectors),
        open_name(config, firsts, n, sheet, selectors),
    ).push(StepView::EndSuite)
}

/// The event that opens or closes the span of a step; `ids[i]` is the id
/// of the case in row `i`.
pub open spec fn step_tag(s: StepView, ids: Seq<u32>) -> Tag {
    match s {
        StepView::BeginSuite => Tag::SuiteBegin("TestSuite"@),
        StepView::BeginGroup(g) => Tag::GroupBegin(g),
        StepView::RunCase(i) => Tag::CaseBegin(
            if 0 <= i < ids.len() {
                ids[i]
            } else {
                0
            },
        ),
        StepView::EndGroup(g) => Tag::GroupEnd(g),
        StepView::EndSuite => Tag::SuiteEnd("TestSuite"@),
    }
}

/// The events of a list of steps.
pub open spec fn step_tags(steps: Seq<StepView>, ids: Seq<u32>) -> Seq<Tag> {
    Seq::new(steps.len(), |k: int| step_tag(steps[k], ids))
}

/// What is open suits the rows read so far: the suite alone while no
/// group is open, else the group named, with or without a case in it.
pub open spec fn suits(sp: Span, open: bool, name: Seq<char>) -> bool {
    if open {
        match sp {
            Span::Group(a, g) => a == "TestSuite"@ && g == name,
            Span::Case(a, g, _) => a == "TestSuite"@ && g == name,
            _ => false,
        }
    } else {
        sp == Span::Suite("TestSuite"@)
    }
}

proof fn lemma_tags_push(steps: Seq<StepView>, x: StepView, ids: Seq<u32>)
    ensures
        step_tags(steps.push(x), ids) == step_tags(steps, ids).push(step_tag(x, ids)),
{
    assert(step_tags(steps.push(x), ids) =~= step_tags(steps, ids).push(step_tag(x, ids)));
}

/// After the step `x`, taken while `sp` suits, what is open is
/// `step(sp, tag)`.
proof fn lemma_step_on(steps: Seq<StepView>, x: StepView, ids: Seq<u32>)
    requires
        span_after(step_tags(steps, ids), steps.len() as int) is Some,
    ensures
        span_after(step_tags(steps.push(x), ids), steps.len() as int + 1) == step(
            span_after(step_tags(steps, ids), steps.len() as int)->0,
            step_tag(x, ids),
        ),
{
    lemma_tags_push(steps, x, ids);
    crate::events::lemma_span_push(step_tags(steps, ids), step_tag(x, ids));
}

proof fn lemma_close_on(steps: Seq<StepView>, open: bool, name: Seq<char>, ids: Seq<u32>)
    requires
        span_after(step_tags(steps, ids), steps.len() as int) is Some,
        suits(span_after(step_tags(steps, ids), steps.len() as int)->0, open, name),
    ensures
        span_after(
            step_tags(steps + closing(open, name), ids),
            (steps + closing(open, name)).len() as int,
        ) == Some(Span::Suite("TestSuite"@)),
{
    if open {
        lemma_step_on(steps, StepView::EndGroup(name), ids);
        assert(steps + closing(open, name) =~= steps.push(StepView::EndGroup(name)));
    } else {
        assert(steps + closing(open, name) =~= steps);
    }
}

/// The steps of the rows read so far leave open what suits them.
proof fn lemma_steps_span(
    config: Config,
    firsts: Seq<Seq<char>>,
    n: int,
    sheet: Seq<char>,
    selectors: Seq<(Seq<char>, Seq<char>)>,
    ids: Seq<u32>,
)
    requires
        0 <= n <= firsts.len(),
    ensures
        ({
            let steps = steps_upto(config, firsts, n, sheet, selectors);
            let sp = span_after(step_tags(steps, ids), steps.len() as int);
            sp is Some && suits(
                sp->0,
                open_after(config, firsts, n, sheet, selectors),
                open_name(config, firsts, n, sheet, selectors),
            )
        }),
    decreases n,
{
    if n <= 0 {
        let none: Seq<StepView> = Seq::empty();
        assert(steps_upto(config, firsts, n, sheet, selectors) =~= none.push(StepView::BeginSuite));
        assert(step_tags(none, ids) =~= Seq::empty());
        lemma_step_on(none, StepView::BeginSuite, ids);
    } else {
        lemma_steps_span(config, firsts, n - 1, sheet, selectors, ids);
        let prev = steps_upto(config, firsts, n - 1, sheet, selectors);
        let open = open_after(config, firsts, n - 1, sheet, selectors);
        let name = open_name(config, firsts, n - 1, sheet, selectors);
        let action = planned(config, firsts, n - 1, sheet, selectors);
        match action {
            RowActionView::StartGroup(g) => {
                lemma_close_on(prev, open, name, ids);
                let closed = prev + closing(open, name);
                lemma_step_on(closed, StepView::BeginGroup(g), ids);
                assert(prev + row_steps(action, open, name, n - 1) =~= closed.push(
                    StepView::BeginGroup(g),
                ));
            },
            RowActionView::CloseGroup => {
                lemma_close_on(prev, open, name, ids);
            },
            RowActionView::Dispatch => {
                lemma_step_on(prev, StepView::RunCase(n - 1), ids);
                assert(prev + row_steps(action, open, name, n - 1) =~= prev.push(
                    StepView::RunCase(n - 1),
                ));
            },
            _ => {
                assert(prev + row_steps(action, open, name, n - 1) =~= prev);
            },
        }
    }
}

/// The events of the run of a sheet come in order: the suite begins
/// first and ends last, every group lies inside the suite and ends before
/// the next begins, and every case lies inside a group; when the run is
/// over nothing is left open.
pub proof fn lemma_schedule_nested(
    config: Config,
    firsts: Seq<Seq<char>>,
    sheet: Seq<char>,
    selectors: Seq<(Seq<char>, Seq<char>)>,
    ids: Seq<u32>,
)
    ensures
        ({
            let steps = schedule(config, firsts, sheet, selectors);
            &&& steps[0] == StepView::BeginSuite
            &&& steps[steps.len() - 1] == StepView::EndSuite
            &&& well_nested(step_tags(steps, ids))
            &&& span_after(step_tags(steps, ids), steps.len() as int) == Some(Span::Idle)
        }),
{
    let n = firsts.len() as int;
    let body = steps_upto(config, firsts, n, sheet, selectors);
    let open = open_after(config, firsts, n, sheet, selectors);
    let name = open_name(config, firsts, n, sheet, selectors);
    lemma_steps_span(config, firsts, n, sheet, selectors, ids);
    lemma_close_on(body, open, name, ids);
    let closed = body + closing(open, name);
    lemma_step_on(closed, StepView::EndSuite, ids);
    assert(schedule(config, firsts, sheet, selectors) =~= closed.push(StepView::EndSuite));
    lemma_first_step(config, firsts, n, sheet, selectors);
}

proof fn lemma_first_step(
    config: Config,
    firsts: Seq<Seq<char>>,
    n: int,
    sheet: Seq<char>,
    selectors: Seq<(Seq<char>, Seq<char>)>,
)
    requires
        0 <= n <= firsts.len(),
    ensures
        steps_upto(config, firsts, n, sheet, selectors).len() >= 1,
        steps_upto(config, firsts, n, sheet, selectors)[0] == StepView::BeginSuite,
    decreases n,
{
    if n > 0 {
        lemma_first_step(config, firsts, n - 1, sheet, selectors);
    }
}

/// On a sheet that no selector names, while selectors are given, no group
/// is opened and no row is run as a case: the run of the sheet is the
/// suite's beginning and its end.
pub proof fn lemma_unselected_sheet_runs_nothing(
    config: Config,
    firsts: Seq<Seq<char>>,
    n: int,
    sheet: Seq<char>,
    selectors: Seq<(Seq<char>, Seq<char>)>,
)
    requires
        0 <= n <= firsts.len(),
        selectors.len() > 0,
        forall|k: int| 0 <= k < selectors.len() ==> (#[trigger] selectors[k]).0 != sheet,
    ensures
        !open_after(config, firsts, n, sheet, selectors),
        steps_upto(config, firsts, n, sheet, selectors) == seq![StepView::BeginSuite],
        n == firsts.len() ==> schedule(config, firsts, sheet, selectors) == seq![
            StepView::BeginSuite,
            StepView::EndSuite,
        ],
    decreases n,
{
    if n > 0 {
        lemma_unselected_sheet_runs_nothing(config, firsts, n - 1, sheet, selectors);
        let action = planned(config, firsts, n - 1, sheet, selectors);
        assert(!(action is StartGroup));
        assert(!(action is Dispatch));
        assert(steps_upto(config, firsts, n, sheet, selectors) =~= seq![StepView::BeginSuite]);
    }
    if n == firsts.len() {
        assert(schedule(config, firsts, sheet, selectors) =~= seq![
            StepView::BeginSuite,
            StepView::EndSuite,
        ]);
    }
}

/// A row outside the rows that are read gives no step.
pub proof fn lemma_rows_out_of_range_are_skipped(
    config: Config,
    firsts: Seq<Seq<char>>,
    i: int,
    sheet: Seq<char>,
    selectors: Seq<(Seq<char>, Seq<char>)>,
)
    requires
        0 <= i < firsts.len(),
        i <= usize::MAX,
        !row_in_range(config, i as usize),
    ensures
        planned(config, firsts, i, sheet, selectors) == RowActionView::Skip,
        steps_upto(config, firsts, i + 1, sheet, selectors) == steps_upto(
            config,
            firsts,
            i,
            sheet,
            selectors,
        ),
{
    assert(steps_upto(config, firsts, i + 1, sheet, selectors) =~= steps_upto(
        config,
        firsts,
        i,
        sheet,
        selectors,
    ));
}

/// The `(worksheet, group)` pairs that `config` selects; a selector without
/// worksheet stands for `default_worksheet`.
pub fn parse_config_groups(config: &Config, default_worksheet: &str) -> (r: Vec<(String, String)>)
    ensures
        pairs_view(r@) == selected(config.groups, default_worksheet@),
{
    let mut r: Vec<(String, String)> = Vec::new();
    match &config.groups {
        Some(groups) => {
            let mut i: usize = 0;
            while i < groups.len()
                invariant
                    i <= groups.len(),
                    r@.len() == i,
                    forall|j: int|
                        0 <= j < i ==> ((#[trigger] r@[j]).0@, r@[j].1@) == selector_pair(
                            groups@[j],
                            default_worksheet@,
                        ),
                decreases groups.len() - i,
            {
                let sheet = match &groups[i].0 {
                    Some(w) => w.clone(),
                    None => default_worksheet.to_owned(),
                };
                r.push((sheet, groups[i].1.clone()));
                i += 1;
            }
            assert(pairs_view(r@) =~= selected(config.groups, default_worksheet@));
        },
        None => {
            assert(pairs_view(r@) =~= selected(config.groups, default_worksheet@));
        },
    }
    r
}

/// Whether the group `name` of `sheet` is to run.
pub fn group_allowed(selectors: &Vec<(String, String)>, sheet: &str, name: &str) -> (b: bool)
    ensures
        b == allows(pairs_view(selectors@), sheet@, name@),
{
    if selectors.len() == 0 {
        return true;
    }
    let mut i: usize = 0;
    while i < selectors.len()
        invariant
            i <= selectors.len(),
            selectors@.len() > 0,
            forall|j: int| 0 <= j < i ==> pairs_view(selectors@)[j] != (sheet@, name@),
        decreases selectors.len() - i,
    {
        if same_text(selectors[i].0.as_str(), sheet) && same_text(selectors[i].1.as_str(), name) {
            assert(pairs_view(selectors@)[i as int] == (sheet@, name@));
            return true;
        }
        i += 1;
    }
    false
}

impl TestSuite {
    /// The totals are split without remainder among passed, failed and
    /// skipped.
    pub open spec fn well_formed(&self) -> bool {
        self.passed + self.failed + self.skipped == self.total
    }

    /// A suite in which no group has run.
    pub fn new() -> (s: Self)
        ensures
            s.well_formed(),
            s.test_groups@.len() == 0,
            s.total == 0,
            s.exec_duration == 0,
    {
        TestSuite {
            test_groups: Vec::new(),
            total: 0,
            passed: 0,
            failed: 0,
            skipped: 0,
            exec_duration: 0,
        }
    }

    /// Says what is done with the row `index` of `sheet`, whose first cell
    /// is `first`, while a group is open or not.
    pub fn plan_row(
        config: &Config,
        index: usize,
        first: &Cell,
        has_group: bool,
        sheet: &str,
        selectors: &Vec<(String, String)>,
    ) -> (action: RowAction)
        ensures
            action_view(action) == row_action(
                *config,
                index,
                first_text(*first),
                has_group,
                sheet@,
                pairs_view(selectors@),
            ),
    {
        let in_range = if config.worksheet.is_some() {
            let from = match config.start_row {
                Some(n) => n,
                None => 1,
            };
            let before_end = match config.end_row {
                Some(n) => index <= n,
                None => true,
            };
            index >= from && before_end
        } else {
            index >= 1
        };
        if !in_range {
            return RowAction::Skip;
        }
        let text = match first {
            Cell::Text(s) => chars_of(s.as_str()),
            _ => Vec::new(),
        };
        assert(text@ =~= first_text(*first));
        let prefix = chars_of("Group:");
        proof {
            reveal_strlit("Group:");
        }
        if matches_at(&text, 0, &prefix) {
            let mut from: usize = 0;
            while matches_at(&text, from, &prefix)
                invariant
                    from <= text.len(),
                    prefix@ == "Group:"@,
                    prefix@.len() > 0,
                    strip_from(text@, 0, prefix@) == strip_from(text@, from as int, prefix@),
                decreases text.len() - from,
            {
                from += prefix.len();
            }
            let name = string_of(&trim_range(&text, from, text.len()));
            if group_allowed(selectors, sheet, name.as_str()) {
                RowAction::StartGroup(name)
            } else {
                RowAction::CloseGroup
            }
        } else if has_group {
            RowAction::Dispatch
        } else {
            RowAction::Ignore
        }
    }

    /// Says what is done with each row of `sheet`, given the first cell of
    /// every row: which rows open a wanted group, which close the open
    /// one, and which are cases of it.
    pub fn plan_sheet(
        config: &Config,
        firsts: &Vec<Cell>,
        sheet: &str,
        selectors: &Vec<(String, String)>,
    ) -> (actions: Vec<RowAction>)
        ensures
            actions@.len() == firsts@.len(),
            forall|i: int|
                0 <= i < actions@.len() ==> action_view(#[trigger] actions@[i]) == planned(
                    *config,
                    first_texts(firsts@),
                    i,
                    sheet@,
                    pairs_view(selectors@),
                ),
    {
        let mut actions: Vec<RowAction> = Vec::new();
        let mut open = false;
        let mut i: usize = 0;
        while i < firsts.len()
            invariant
                i <= firsts.len(),
                actions@.len() == i,
                open == open_after(
                    *config,
                    first_texts(firsts@),
                    i as int,
                    sheet@,
                    pairs_view(selectors@),
                ),
                forall|k: int|
                    0 <= k < i ==> action_view(#[trigger] actions@[k]) == planned(
                        *config,
                        first_texts(firsts@),
                        k,
                        sheet@,
                        pairs_view(selectors@),
                    ),
            decreases firsts.len() - i,
        {
            let action = Self::plan_row(config, i, &firsts[i], open, sheet, selectors);
            assert(first_texts(firsts@)[i as int] == first_text(firsts@[i as int]));
            match &action {
                RowAction::StartGroup(_) => {
                    open = true;
                },
                RowAction::CloseGroup => {
                    open = false;
                },
                _ => {},
            }
            actions.push(action);
            i += 1;
        }
        actions
    }

    /// Lays out the run of `sheet`, step by step, from the first cell of
    /// each of its rows: the suite begins; each header row ends the group
    /// that is open and, where its group is wanted, begins it; each case
    /// row of an open group is run; the group open at the end is ended;
    /// the suite ends. The caller does the work of each step in order.
    pub fn exec(
        config: &Config,
        firsts: &Vec<Cell>,
        sheet: &str,
        selectors: &Vec<(String, String)>,
    ) -> (steps: Vec<SheetStep>)
        ensures
            steps_view(steps@) == schedule(
                *config,
                first_texts(firsts@),
                sheet@,
                pairs_view(selectors@),
            ),
    {
        let ghost texts = first_texts(firsts@);
        let ghost sel = pairs_view(selectors@);
        let mut steps: Vec<SheetStep> = Vec::new();
        steps.push(SheetStep::BeginSuite);
        assert(steps_view(steps@) =~= steps_upto(*config, texts, 0, sheet@, sel));
        let mut open: Option<String> = None;
        let mut i: usize = 0;
        while i < firsts.len()
            invariant
                i <= firsts.len(),
                texts == first_texts(firsts@),
                sel == pairs_view(selectors@),
                steps_view(steps@) == steps_upto(*config, texts, i as int, sheet@, sel),
                open is Some == open_after(*config, texts, i as int, sheet@, sel),
                open is Some ==> open->0@ == open_name(*config, texts, i as int, sheet@, sel),
            decreases firsts.len() - i,
        {
            let action = Self::plan_row(config, i, &firsts[i], open.is_some(), sheet, selectors);
            assert(texts[i as int] == first_text(firsts@[i as int]));
            let ghost before = steps_view(steps@);
            let ghost was_open = open is Some;
            let ghost name = open_name(*config, texts, i as int, sheet@, sel);
            match action {
                RowAction::StartGroup(g) => {
                    match open {
                        Some(n) => {
                            steps.push(SheetStep::EndGroup(n));
                        },
                        None => {},
                    }
                    assert(steps_view(steps@) =~= before + closing(was_open, name));
                    open = Some(g.clone());
                    steps.push(SheetStep::BeginGroup(g));
                    assert(steps_view(steps@) =~= before + closing(was_open, name).push(
                        StepView::BeginGroup(g@),
                    ));
                },
                RowAction::CloseGroup => {
                    match open {
                        Some(n) => {
                            steps.push(SheetStep::EndGroup(n));
                        },
                        None => {},
                    }
                    open = None;
                    assert(steps_view(steps@) =~= before + closing(was_open, name));
                },
                RowAction::Dispatch => {
                    steps.push(SheetStep::RunCase(i));
                    assert(steps_view(steps@) =~= before + seq![StepView::RunCase(i as int)]);
                },
                _ => {
                    assert(steps_view(steps@) =~= before + Seq::empty());
                },
            }
            i += 1;
        }
        let ghost before = steps_view(steps@);
        let ghost was_open = open is Some;
        let ghost name = open_name(*config, texts, i as int, sheet@, sel);
        match open {
            Some(n) => {
                steps.push(SheetStep::EndGroup(n));
            },
            None => {},
        }
        assert(steps_view(steps@) =~= before + closing(was_open, name));
        steps.push(SheetStep::EndSuite);
        assert(steps_view(steps@) =~= before + closing(was_open, name).push(StepView::EndSuite));
        steps
    }

    /// Takes in a group that has come to its end: its counts and its
    /// duration are added to the suite's, and the group is kept.
    pub fn finalize_group(&mut self, group: TestGroup)
        requires
            old(self).well_formed(),
            group.well_formed(),
            old(self).total + group.total <= usize::MAX,
            old(self).exec_duration + group.exec_duration <= u64::MAX,
        ensures
            final(self).well_formed(),
            final(self).test_groups@ == old(self).test_groups@.push(group),
            final(self).total == old(self).total + group.total,
            final(self).passed == old(self).passed + group.passed,
            final(self).failed == old(self).failed + group.failed,
            final(self).skipped == old(self).skipped + group.skipped,
            final(self).exec_duration == old(self).exec_duration + group.exec_duration,
    {
        self.total = self.total + group.total;
        self.passed = self.passed + group.passed;
        self.failed = self.failed + group.failed;
        self.skipped = self.skipped + group.skipped;
        self.exec_duration = self.exec_duration + group.exec_duration;
        self.test_groups.push(group);
    }

    /// The result of a run that came to its end: `Passed`, whatever the
    /// cases did. What failed shows in the counts and the events.
    pub fn exec_result(&self) -> (r: TestResult)
        ensures
            r == TestResult::Passed,
    {
        TestResult::Passed
    }

    /// The suite's summary line.
    pub fn stats_line(&self) -> (r: String)
        ensures
            r@ == counts_text(self.total, self.passed, self.failed, self.skipped),
    {
        let mut out: Vec<char> = Vec::new();
        write_counts(&mut out, self.total, self.passed, self.failed, self.skipped);
        string_of(&out)
    }

    /// The data of the event that opens the suite.
    pub fn get_start_evt_data(&self) -> (e: TestSuiteBegin)
        ensures
            e.iteration_id@ == "1"@,
            e.suite_name@ == "TestSuite"@,
    {
        TestSuiteBegin { iteration_id: "1".to_owned(), suite_name: "TestSuite".to_owned() }
    }

    /// The data of the event that closes the suite.
    pub fn get_end_evt_data(&self) -> (e: TestSuiteEnd)
        ensures
            e.iteration_id@ == "1"@,
            e.suite_name@ == "TestSuite"@,
            e.exec_duration == self.exec_duration,
    {
        TestSuiteEnd {
            exec_duration: self.exec_duration,
            iteration_id: "1".to_owned(),
            suite_name: "TestSuite".to_owned(),
        }
    }
}

} // verus!
