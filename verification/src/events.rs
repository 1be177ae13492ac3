//! The events of a run, and the log that keeps them in order.

use vstd::prelude::*;
use crate::json::Json;
use crate::text::same_text;

verus! {

/// A suite begins.
#[derive(Debug)]
pub struct TestSuiteBegin {
    pub iteration_id: String,
    pub suite_name: String,
}

/// A suite has ended.
#[derive(Debug)]
pub struct TestSuiteEnd {
    /// Milliseconds spent in requests.
    pub exec_duration: u64,
    pub iteration_id: String,
    pub suite_name: String,
}

/// A group begins.
#[derive(Debug)]
pub struct TestGroupBegin {
    pub iteration_id: String,
    pub group_name: String,
}

/// A group has ended.
#[derive(Debug)]
pub struct TestGroupEnd {
    pub iteration_id: String,
    pub group_name: String,
    /// Milliseconds spent in requests.
    pub exec_duration: u64,
}

/// A case begins: what its row said.
#[derive(Debug)]
pub struct TestCaseBegin {
    pub iteration_id: String,
    pub testcase_id: u32,
    pub testcase_name: String,
    pub given: String,
    pub when: String,
    pub then_clause: String,
    pub url: String,
    pub method: String,
    pub headers: Vec<(String, String)>,
    pub payload: String,
    pub pre_test_script: Option<String>,
    pub post_test_script: Option<String>,
}

/// An iteration of a case has ended: what the service answered.
#[derive(Debug)]
pub struct TestCaseEnd {
    pub iteration_id: String,
    pub testcase_id: u32,
    /// Milliseconds spent in the request.
    pub exec_duration: u64,
    pub status: i64,
    pub response: String,
    pub response_json: Option<Json>,
}

/// An event of a run.
#[derive(Debug)]
pub enum TestEvent {
    EvtTestSuiteBegin(TestSuiteBegin),
    EvtTestSuiteEnd(TestSuiteEnd),
    EvtTestGroupBegin(TestGroupBegin),
    EvtTestGroupEnd(TestGroupEnd),
    EvtTestCaseBegin(TestCaseBegin),
    EvtTestCaseEnd(TestCaseEnd),
}

/// What an event opens or closes.
pub enum Tag {
    SuiteBegin(Seq<char>),
    SuiteEnd(Seq<char>),
    GroupBegin(Seq<char>),
    GroupEnd(Seq<char>),
    CaseBegin(u32),
    CaseEnd(u32),
}

/// What is open at some point of a log.
pub enum Span {
    Idle,
    Suite(Seq<char>),
    Group(Seq<char>, Seq<char>),
    Case(Seq<char>, Seq<char>, u32),
}

/// What `e` opens or closes.
pub open spec fn tag_of(e: TestEvent) -> Tag {
    match e {
        TestEvent::EvtTestSuiteBegin(b) => Tag::SuiteBegin(b.suite_name@),
        TestEvent::EvtTestSuiteEnd(b) => Tag::SuiteEnd(b.suite_name@),
        TestEvent::EvtTestGroupBegin(b) => Tag::GroupBegin(b.group_name@),
        TestEvent::EvtTestGroupEnd(b) => Tag::GroupEnd(b.group_name@),
        TestEvent::EvtTestCaseBegin(b) => Tag::CaseBegin(b.testcase_id),
        TestEvent::EvtTestCaseEnd(b) => Tag::CaseEnd(b.testcase_id),
    }
}

/// What each event of a log opens or closes.
pub open spec fn tags_of(events: Seq<TestEvent>) -> Seq<Tag> {
    Seq::new(events.len(), |i: int| tag_of(events[i]))
}

/// What is open after the event `t` arrives while `s` is open; `None`
/// where `t` is out of order. A suite opens when nothing is open and a
/// group inside a suite. A case opens inside a group, closing the case
/// before it; it may end once for each time it ran. A group closes with
/// its last case; a suite closes only when no group is open.
pub open spec fn step(s: Span, t: Tag) -> Option<Span> {
    match (s, t) {
        (Span::Idle, Tag::SuiteBegin(a)) => Some(Span::Suite(a)),
        (Span::Suite(a), Tag::SuiteEnd(b)) => if a == b {
            Some(Span::Idle)
        } else {
            None
        },
        (Span::Suite(a), Tag::GroupBegin(g)) => Some(Span::Group(a, g)),
        (Span::Group(a, g), Tag::GroupEnd(h)) => if g == h {
            Some(Span::Suite(a))
        } else {
            None
        },
        (Span::Group(a, g), Tag::CaseBegin(id)) => Some(Span::Case(a, g, id)),
        (Span::Case(a, g, id), Tag::CaseEnd(other)) => if id == other {
            Some(Span::Case(a, g, id))
        } else {
            None
        },
        (Span::Case(a, g, _), Tag::CaseBegin(id)) => Some(Span::Case(a, g, id)),
        (Span::Case(a, g, _), Tag::GroupEnd(h)) => if g == h {
            Some(Span::Suite(a))
        } else {
            None
        },
        _ => None,
    }
}

/// What is open after the first `n` events; `None` where one of them was
/// out of order.
pub open spec fn span_after(tags: Seq<Tag>, n: int) -> Option<Span>
    decreases n,
{
    if n <= 0 || n > tags.len() {
        Some(Span::Idle)
    } else {
        match span_after(tags, n - 1) {
            Some(s) => step(s, tags[n - 1]),
            None => None,
        }
    }
}

/// Every event of the log came in order.
pub open spec fn well_nested(tags: Seq<Tag>) -> bool {
    span_after(tags, tags.len() as int) is Some
}

/// The `Begin` that an `End` closes.
pub open spec fn opener(t: Tag) -> Tag {
    match t {
        Tag::SuiteEnd(a) => Tag::SuiteBegin(a),
        Tag::GroupEnd(g) => Tag::GroupBegin(g),
        Tag::CaseEnd(id) => Tag::CaseBegin(id),
        _ => t,
    }
}

/// Whether `t` closes a span.
pub open spec fn is_end(t: Tag) -> bool {
    t is SuiteEnd || t is GroupEnd || t is CaseEnd
}

/// The `Begin` events whose spans are open in `s`.
pub open spec fn open_in(s: Span, t: Tag) -> bool {
    match s {
        Span::Idle => false,
        Span::Suite(a) => t == Tag::SuiteBegin(a),
        Span::Group(a, g) => t == Tag::SuiteBegin(a) || t == Tag::GroupBegin(g),
        Span::Case(a, g, id) => t == Tag::SuiteBegin(a) || t == Tag::GroupBegin(g) || t
            == Tag::CaseBegin(id),
    }
}

proof fn lemma_prefix_runs(tags: Seq<Tag>, n: int)
    requires
        well_nested(tags),
        0 <= n <= tags.len(),
    ensures
        span_after(tags, n) is Some,
    decreases tags.len() - n,
{
    if n < tags.len() {
        lemma_prefix_runs(tags, n + 1);
    }
}

proof fn lemma_open_was_begun(tags: Seq<Tag>, n: int, t: Tag)
    requires
        0 <= n <= tags.len(),
        span_after(tags, n) is Some,
        open_in(span_after(tags, n)->0, t),
    ensures
        exists|j: int| 0 <= j < n && tags[j] == t,
    decreases n,
{
    if n > 0 {
        let before = span_after(tags, n - 1)->0;
        if tags[n - 1] == t {
            assert(tags[n - 1] == t);
        } else {
            assert(open_in(before, t));
            lemma_open_was_begun(tags, n - 1, t);
            let j = choose|j: int| 0 <= j < n - 1 && tags[j] == t;
            assert(0 <= j < n && tags[j] == t);
        }
    }
}

/// In a log whose events all came in order, every `End` is preceded by the
/// `Begin` with the same name or id.
pub proof fn lemma_end_follows_begin(tags: Seq<Tag>, i: int)
    requires
        well_nested(tags),
        0 <= i < tags.len(),
        is_end(tags[i]),
    ensures
        exists|j: int| 0 <= j < i && tags[j] == opener(tags[i]),
{
    lemma_prefix_runs(tags, i);
    lemma_prefix_runs(tags, i + 1);
    let before = span_after(tags, i)->0;
    assert(step(before, tags[i]) is Some);
    assert(open_in(before, opener(tags[i])));
    lemma_open_was_begun(tags, i, opener(tags[i]));
}

/// In a log whose events all came in order, a group begins only inside a
/// suite and a case only inside a group: the `Begin` of the enclosing span
/// precedes it.
pub proof fn lemma_spans_nest(tags: Seq<Tag>, i: int)
    requires
        well_nested(tags),
        0 <= i < tags.len(),
        tags[i] is GroupBegin || tags[i] is CaseBegin,
    ensures
        tags[i] is GroupBegin ==> exists|j: int| 0 <= j < i && (#[trigger] tags[j]) is SuiteBegin,
        tags[i] is CaseBegin ==> exists|j: int| 0 <= j < i && (#[trigger] tags[j]) is GroupBegin,
{
    lemma_prefix_runs(tags, i);
    lemma_prefix_runs(tags, i + 1);
    let before = span_after(tags, i)->0;
    assert(step(before, tags[i]) is Some);
    if tags[i] is GroupBegin {
        let a = before->Suite_0;
        lemma_open_was_begun(tags, i, Tag::SuiteBegin(a));
        let j = choose|j: int| 0 <= j < i && tags[j] == Tag::SuiteBegin(a);
        assert(tags[j] is SuiteBegin);
    } else {
        let g = match before {
            Span::Group(_, g) => g,
            Span::Case(_, g, _) => g,
            _ => Seq::empty(),
        };
        lemma_open_was_begun(tags, i, Tag::GroupBegin(g));
        let j = choose|j: int| 0 <= j < i && tags[j] == Tag::GroupBegin(g);
        assert(tags[j] is GroupBegin);
    }
}

/// One more event carries what is open one step on.
pub proof fn lemma_span_push(tags: Seq<Tag>, t: Tag)
    ensures
        span_after(tags.push(t), tags.len() as int + 1) == (match span_after(tags, tags.len() as int) {
            Some(s) => step(s, t),
            None => None,
        }),
{
    lemma_run_push(tags, t, tags.len() as int);
}

proof fn lemma_run_push(tags: Seq<Tag>, t: Tag, n: int)
    requires
        0 <= n <= tags.len(),
    ensures
        span_after(tags.push(t), n) == span_after(tags, n),
    decreases n,
{
    if n > 0 {
        lemma_run_push(tags, t, n - 1);
        assert(tags.push(t)[n - 1] == tags[n - 1]);
    }
}

/// What is open, as the log holds it.
#[derive(Debug)]
pub enum Depth {
    Idle,
    Suite(String),
    Group(String, String),
    Case(String, String, u32),
}

/// The view of a depth.
pub open spec fn span_of(d: Depth) -> Span {
    match d {
        Depth::Idle => Span::Idle,
        Depth::Suite(a) => Span::Suite(a@),
        Depth::Group(a, g) => Span::Group(a@, g@),
        Depth::Case(a, g, id) => Span::Case(a@, g@, id),
    }
}

/// The buffered event queue of a run. It takes an event only where the
/// event is in order, so what it holds is well nested at all times.
#[derive(Debug)]
pub struct EventLog {
    events: Vec<TestEvent>,
    depth: Depth,
}

impl EventLog {
    /// The log's depth is what its events leave open.
    #[verifier::type_invariant]
    spec fn in_step(&self) -> bool {
        span_after(tags_of(self.events@), self.events@.len() as int) == Some(span_of(self.depth))
    }

    /// The events taken so far, oldest first.
    pub closed spec fn history(&self) -> Seq<TestEvent> {
        self.events@
    }

    /// What the events taken so far leave open.
    pub closed spec fn span(&self) -> Span {
        span_of(self.depth)
    }

    /// An empty log with nothing open.
    pub fn new() -> (r: Self)
        ensures
            r.history() == Seq::<TestEvent>::empty(),
            r.span() == Span::Idle,
    {
        EventLog { events: Vec::new(), depth: Depth::Idle }
    }

    /// Appends `event` if it is in order, and says whether it was. An
    /// event that is out of order is dropped and the log stays as it was.
    pub fn send(self, event: TestEvent) -> (r: (Self, bool))
        ensures
            r.1 == (step(self.span(), tag_of(event)) is Some),
            r.1 ==> r.0.history() == self.history().push(event) && Some(r.0.span()) == step(
                self.span(),
                tag_of(event),
            ),
            !r.1 ==> r.0.history() == self.history() && r.0.span() == self.span(),
            well_nested(tags_of(r.0.history())),
            span_after(tags_of(r.0.history()), r.0.history().len() as int) == Some(r.0.span()),
    {
        proof {
            use_type_invariant(&self);
        }
        let next: Option<Depth> = match (&self.depth, &event) {
            (Depth::Idle, TestEvent::EvtTestSuiteBegin(b)) => Some(
                Depth::Suite(b.suite_name.clone()),
            ),
            (Depth::Suite(a), TestEvent::EvtTestSuiteEnd(b)) => {
                if same_text(a.as_str(), b.suite_name.as_str()) {
                    Some(Depth::Idle)
                } else {
                    None
                }
            },
            (Depth::Suite(a), TestEvent::EvtTestGroupBegin(b)) => Some(
                Depth::Group(a.clone(), b.group_name.clone()),
            ),
            (Depth::Group(a, g), TestEvent::EvtTestGroupEnd(b)) => {
                if same_text(g.as_str(), b.group_name.as_str()) {
                    Some(Depth::Suite(a.clone()))
                } else {
                    None
                }
            },
            (Depth::Group(a, g), TestEvent::EvtTestCaseBegin(b)) => Some(
                Depth::Case(a.clone(), g.clone(), b.testcase_id),
            ),
            (Depth::Case(a, g, id), TestEvent::EvtTestCaseEnd(b)) => {
                if *id == b.testcase_id {
                    Some(Depth::Case(a.clone(), g.clone(), *id))
                } else {
                    None
                }
            },
            (Depth::Case(a, g, _), TestEvent::EvtTestCaseBegin(b)) => Some(
                Depth::Case(a.clone(), g.clone(), b.testcase_id),
            ),
            (Depth::Case(a, g, _), TestEvent::EvtTestGroupEnd(b)) => {
                if same_text(g.as_str(), b.group_name.as_str()) {
                    Some(Depth::Suite(a.clone()))
                } else {
                    None
                }
            },
            _ => None,
        };
        match next {
            Some(d) => {
                proof {
                    let tags = tags_of(self.events@);
                    lemma_run_push(tags, tag_of(event), tags.len() as int);
                    assert(tags_of(self.events@.push(event)) =~= tags.push(tag_of(event)));
                }
                let mut events = self.events;
                events.push(event);
                (EventLog { events, depth: d }, true)
            },
            None => (self, false),
        }
    }

    /// The events taken so far, oldest first. They are well nested.
    pub fn events(&self) -> (r: &Vec<TestEvent>)
        ensures
            r@ == self.history(),
            well_nested(tags_of(r@)),
            span_after(tags_of(r@), r@.len() as int) == Some(self.span()),
    {
        proof {
            use_type_invariant(self);
        }
        &self.events
    }

    /// What is open.
    pub fn depth(&self) -> (r: &Depth)
        ensures
            span_of(*r) == self.span(),
    {
        &self.depth
    }

    /// The events taken since the first `from`, oldest first; the caller
    /// keeps count of what it has seen.
    pub fn pending(&self, from: usize) -> (out: &[TestEvent])
        ensures
            out@ == (if from <= self.history().len() {
                self.history().subrange(from as int, self.history().len() as int)
            } else {
                Seq::empty()
            }),
    {
        if from <= self.events.len() {
            vstd::slice::slice_subrange(self.events.as_slice(), from, self.events.len())
        } else {
            vstd::slice::slice_subrange(self.events.as_slice(), 0, 0)
        }
    }
}

} // verus!
