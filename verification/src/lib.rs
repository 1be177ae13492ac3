//! Data-driven HTTP API testing: the rules that turn spreadsheet rows into
//! requests, thread state between the cases of a group, and report what ran.

use vstd::prelude::*;

pub mod case;
pub mod config;
pub mod context;
pub mod data;
pub mod events;
pub mod group;
pub mod json;
pub mod keywords;
pub mod placeholders;
pub mod progress;
pub mod request;
pub mod row_parser;
pub mod scan;
pub mod suite;
pub mod text;

verus! {

/// The front of the library: the event queue of a run, and the choice of
/// the sheets to run.
#[derive(Debug)]
pub struct TSat {
    pub log: events::EventLog,
}

impl TSat {
    /// A run with nothing logged and nothing open.
    pub fn new() -> (r: Self)
        ensures
            r.log.history() == Seq::<events::TestEvent>::empty(),
            r.log.span() == events::Span::Idle,
    {
        TSat { log: events::EventLog::new() }
    }

    /// The sheets that a run covers: the worksheet that the configuration
    /// names, or every sheet of the workbook where it names none.
    pub fn sheets_to_run(config: &config::Config, sheet_names: Vec<String>) -> (r: Vec<String>)
        ensures
            match config.worksheet {
                Some(w) => r@.len() == 1 && r@[0] == w,
                None => r == sheet_names,
            },
    {
        match &config.worksheet {
            Some(w) => {
                let mut r: Vec<String> = Vec::new();
                r.push(w.clone());
                r
            },
            None => sheet_names,
        }
    }

    /// Queues `event` if it is in order, and says whether it was queued.
    /// An event that is out of order is dropped.
    pub fn send(&mut self, event: events::TestEvent) -> (taken: bool)
        ensures
            taken == (events::step(old(self).log.span(), events::tag_of(event)) is Some),
            taken ==> final(self).log.history() == old(self).log.history().push(event),
            !taken ==> final(self).log.history() == old(self).log.history(),
            events::well_nested(events::tags_of(final(self).log.history())),
    {
        let mut log = events::EventLog::new();
        std::mem::swap(&mut self.log, &mut log);
        let (log, taken) = log.send(event);
        self.log = log;
        taken
    }
}

} // verus!
