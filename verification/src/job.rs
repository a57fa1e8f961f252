//! The unit of work — one submitted download request — and its lifecycle
//! state machine.

use vstd::prelude::*;

use crate::format::{clone_opt_string, Format};

verus! {

/// Process-unique job identity: a 128-bit value drawn at creation.
pub type JobId = u128;

/// Relies on `uuid::Uuid::new_v4` (via `as_u128`) for a freshly drawn
/// random identifier. Nothing is assumed of the value.
#[verifier::external_body]
pub(crate) fn fresh_job_id() -> JobId {
    uuid::Uuid::new_v4().as_u128()
}

/// Lifecycle state of a job. `Completed`, `Failed` and `Cancelled` are
/// terminal. Progress percentages are carried in thousandths of a percent.
pub enum JobStatus {
    FetchingFormats,
    Ready { formats: Vec<Format> },
    Queued,
    Downloading { percent_milli: u64, speed: String, eta: String },
    Completed,
    Failed(String),
    Cancelled,
}

/// Mathematical image of an optional string.
pub open spec fn opt_view(o: Option<String>) -> Option<Seq<char>> {
    match o {
        Some(s) => Some(s@),
        None => None,
    }
}

/// Mathematical image of a `JobStatus`: the same shape over character
/// sequences and a format sequence. (Neither a `Vec` nor a `String` value
/// is determined by its contents alone, so contracts that compare
/// statuses speak of this image.)
pub ghost enum StatusV {
    FetchingFormats,
    Ready { formats: Seq<Format> },
    Queued,
    Downloading { percent_milli: u64, speed: Seq<char>, eta: Seq<char> },
    Completed,
    Failed(Seq<char>),
    Cancelled,
}

impl View for JobStatus {
    type V = StatusV;

    open spec fn view(&self) -> StatusV {
        match self {
            JobStatus::FetchingFormats => StatusV::FetchingFormats,
            JobStatus::Ready { formats } => StatusV::Ready { formats: formats@ },
            JobStatus::Queued => StatusV::Queued,
            JobStatus::Downloading { percent_milli, speed, eta } => StatusV::Downloading {
                percent_milli: *percent_milli,
                speed: speed@,
                eta: eta@,
            },
            JobStatus::Completed => StatusV::Completed,
            JobStatus::Failed(e) => StatusV::Failed(e@),
            JobStatus::Cancelled => StatusV::Cancelled,
        }
    }
}

/// Mathematical image of a `Job`.
pub ghost struct JobV {
    pub id: JobId,
    pub url: Seq<char>,
    pub title: Option<Seq<char>>,
    pub status: StatusV,
    pub formats: Seq<Format>,
    pub selected_format: Option<Format>,
    pub output_path: Option<Seq<char>>,
}

impl View for Job {
    type V = JobV;

    open spec fn view(&self) -> JobV {
        JobV {
            id: self.id,
            url: self.url@,
            title: opt_view(self.title),
            status: self.status@,
            formats: self.formats@,
            selected_format: self.selected_format,
            output_path: opt_view(self.output_path),
        }
    }
}

pub fn clone_formats(fs: &Vec<Format>) -> (r: Vec<Format>)
    ensures
        r@ == fs@,
{
    let mut r: Vec<Format> = Vec::new();
    let mut i: usize = 0;
    while i < fs.len()
        invariant
            0 <= i <= fs@.len(),
            r@ == fs@.take(i as int),
        decreases fs@.len() - i,
    {
        r.push(fs[i].clone());
        proof {
            assert(fs@.take(i + 1) =~= fs@.take(i as int).push(fs@[i as int]));
        }
        i += 1;
    }
    proof {
        assert(fs@.take(fs@.len() as int) =~= fs@);
    }
    r
}

impl Clone for JobStatus {
    fn clone(&self) -> (r: Self)
        ensures
            r@ == self@,
    {
        match self {
            JobStatus::FetchingFormats => JobStatus::FetchingFormats,
            JobStatus::Ready { formats } => JobStatus::Ready {
                formats: clone_formats(formats),
            },
            JobStatus::Queued => JobStatus::Queued,
            JobStatus::Downloading { percent_milli, speed, eta } => JobStatus::Downloading {
                percent_milli: *percent_milli,
                speed: speed.clone(),
                eta: eta.clone(),
            },
            JobStatus::Completed => JobStatus::Completed,
            JobStatus::Failed(e) => JobStatus::Failed(e.clone()),
            JobStatus::Cancelled => JobStatus::Cancelled,
        }
    }
}

/// One submitted download request. Created when a URL is added; mutated
/// only by the caller's event folding, never by a running task.
pub struct Job {
    pub id: JobId,
    pub url: String,
    pub title: Option<String>,
    pub status: JobStatus,
    pub formats: Vec<Format>,
    pub selected_format: Option<Format>,
    pub output_path: Option<String>,
}

/// The name shown for a job: its resolved title when known, else its URL.
pub open spec fn spec_display_name(j: Job) -> Seq<char> {
    match j.title {
        Some(t) => t@,
        None => j.url@,
    }
}

/// A format may be picked for a job that has its formats and has not
/// started: `Ready` or `Queued`, with a non-empty format list.
pub open spec fn spec_can_select_format(j: Job) -> bool {
    (j.status is Ready || j.status is Queued) && j.formats@.len() > 0
}

impl Clone for Job {
    fn clone(&self) -> (r: Self)
        ensures
            r@ == self@,
    {
        let formats = clone_formats(&self.formats);
        Job {
            id: self.id,
            url: self.url.clone(),
            title: clone_opt_string(&self.title),
            status: self.status.clone(),
            formats,
            selected_format: match &self.selected_format {
                Some(f) => Some(f.clone()),
                None => None,
            },
            output_path: clone_opt_string(&self.output_path),
        }
    }
}

impl Job {
    /// A fresh job for `url`: a new identity, no title or formats yet, in
    /// the initial `FetchingFormats` state.
    pub fn new(url: String) -> (r: Self)
        ensures
            r.url == url,
            r.title is None,
            r.status is FetchingFormats,
            r.formats@.len() == 0,
            r.selected_format is None,
            r.output_path is None,
    {
        Job {
            id: fresh_job_id(),
            url,
            title: None,
            status: JobStatus::FetchingFormats,
            formats: Vec::new(),
            selected_format: None,
            output_path: None,
        }
    }

    pub fn display_name(&self) -> (r: &str)
        ensures
            r@ == spec_display_name(*self),
    {
        match &self.title {
            Some(t) => t.as_str(),
            None => self.url.as_str(),
        }
    }

    pub fn can_select_format(&self) -> (r: bool)
        ensures
            r == spec_can_select_format(*self),
    {
        let in_state = match &self.status {
            JobStatus::Ready { .. } => true,
            JobStatus::Queued => true,
            _ => false,
        };
        in_state && self.formats.len() > 0
    }
}

/// How many jobs sit in each lifecycle bucket; cancelled jobs are
/// counted nowhere, as in the status bar this feeds.
pub struct StatusCounts {
    pub fetching: usize,
    pub ready: usize,
    pub queued: usize,
    pub active: usize,
    pub completed: usize,
    pub failed: usize,
}

impl Default for StatusCounts {
    fn default() -> (r: Self)
        ensures
            r.fetching == 0,
            r.ready == 0,
            r.queued == 0,
            r.active == 0,
            r.completed == 0,
            r.failed == 0,
    {
        StatusCounts { fetching: 0, ready: 0, queued: 0, active: 0, completed: 0, failed: 0 }
    }
}

} // verus!
