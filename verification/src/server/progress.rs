use vstd::prelude::*;
use crate::model::AuditReport;

verus! {

/// What an audit job reports while it runs.
#[derive(Debug, Clone)]
pub enum ProgressEvent {
    Started { job_id: String, root: String },
    PageDone { url: String, score: u8, queue_depth: usize, pages_done: usize },
    Done { report: AuditReport },
    Error { message: String },
}

impl ProgressEvent {
    /// The event's name on the wire.
    pub fn event_name(&self) -> (res: &'static str)
        ensures
            res@ == match *self {
                ProgressEvent::Started { .. } => "Started"@,
                ProgressEvent::PageDone { .. } => "PageDone"@,
                ProgressEvent::Done { .. } => "Done"@,
                ProgressEvent::Error { .. } => "Error"@,
            },
    {
        match self {
            ProgressEvent::Started { .. } => "Started",
            ProgressEvent::PageDone { .. } => "PageDone",
            ProgressEvent::Done { .. } => "Done",
            ProgressEvent::Error { .. } => "Error",
        }
    }

    /// Whether the event ends a job: `Done` or `Error`.
    pub fn is_terminal(&self) -> (res: bool)
        ensures
            res == (*self is Done || *self is Error),
    {
        match self {
            ProgressEvent::Done { .. } => true,
            ProgressEvent::Error { .. } => true,
            _ => false,
        }
    }
}

} // verus!
