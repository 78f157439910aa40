use vstd::prelude::*;
use crate::text::{decimal, decimal_text};

verus! {

/// Where a job stands in its life: `Waiting -> Active -> {Done | Failed}`.
#[derive(Debug, Clone, Copy, PartialEq, Eq, Structural)]
pub enum State {
    Waiting,
    Active,
    Done,
    Failed,
}

/// The word a listing shows for a state.
pub open spec fn state_text(s: State) -> Seq<char> {
    match s {
        State::Waiting => "Waiting"@,
        State::Active => "Active"@,
        State::Done => "Done"@,
        State::Failed => "Failed"@,
    }
}

/// A job in `Done` or `Failed` never changes state again.
pub open spec fn is_terminal(s: State) -> bool {
    s == State::Done || s == State::Failed
}

/// The moves of the state machine; nothing leaves a terminal state.
pub open spec fn can_follow(from: State, to: State) -> bool {
    (from == State::Waiting && to == State::Active) || (from == State::Active && is_terminal(to))
}

impl State {
    pub fn to_string(&self) -> (r: String)
        ensures
            r@ == state_text(*self),
    {
        match self {
            State::Waiting => String::from_str("Waiting"),
            State::Active => String::from_str("Active"),
            State::Done => String::from_str("Done"),
            State::Failed => String::from_str("Failed"),
        }
    }
}

impl Default for State {
    fn default() -> (r: State)
        ensures
            r == State::Waiting,
    {
        State::Waiting
    }
}

/// The mathematical content of a job record.
pub struct JobView {
    pub name: Seq<char>,
    pub download_path: Seq<char>,
    pub url: Seq<char>,
    pub state: State,
    pub total_size: Option<u64>,
    pub error: Option<Seq<char>>,
}

pub open spec fn opt_view(o: Option<String>) -> Option<Seq<char>> {
    match o {
        Some(s) => Some(s@),
        None => None,
    }
}

/// One download: where it comes from, where it goes, and how it fares.
pub struct DownloadObject {
    pub name: String,
    pub download_path: String,
    pub url: String,
    pub state: State,
    pub total_size: Option<u64>,
    pub resulted_err: Option<String>,
}

impl View for DownloadObject {
    type V = JobView;

    open spec fn view(&self) -> JobView {
        JobView {
            name: self.name@,
            download_path: self.download_path@,
            url: self.url@,
            state: self.state,
            total_size: self.total_size,
            error: opt_view(self.resulted_err),
        }
    }
}

/// The size column of a listing: empty when the size is unknown.
pub open spec fn size_text(s: Option<u64>) -> Seq<char> {
    match s {
        Some(n) => decimal(n as nat),
        None => Seq::empty(),
    }
}

/// One listing line: `<name>  ( _ / <total_size>)  <state>` and a line break.
/// The underscore stands for a progress count that is not tracked.
pub open spec fn job_line(j: JobView) -> Seq<char> {
    j.name + "  ( _ / "@ + size_text(j.total_size) + ")  "@ + state_text(j.state) + "\r\n"@
}

fn size_string(s: Option<u64>) -> (r: String)
    ensures
        r@ == size_text(s),
{
    match s {
        Some(n) => decimal_text(n),
        None => String::new(),
    }
}

impl DownloadObject {
    /// A fresh job, waiting for admission.
    pub fn waiting(name: String, download_path: String, url: String) -> (r: DownloadObject)
        ensures
            r@ == (JobView {
                name: name@,
                download_path: download_path@,
                url: url@,
                state: State::Waiting,
                total_size: None,
                error: None,
            }),
    {
        DownloadObject {
            name,
            download_path,
            url,
            state: State::Waiting,
            total_size: None,
            resulted_err: None,
        }
    }

    /// A copy of this record.
    pub fn snapshot(&self) -> (r: DownloadObject)
        ensures
            r@ == self@,
    {
        let resulted_err = match &self.resulted_err {
            Some(e) => Some(e.clone()),
            None => None,
        };
        DownloadObject {
            name: self.name.clone(),
            download_path: self.download_path.clone(),
            url: self.url.clone(),
            state: self.state,
            total_size: self.total_size,
            resulted_err,
        }
    }

    /// Renders this job's listing line.
    pub fn line(&self) -> (r: String)
        ensures
            r@ == job_line(self@),
    {
        let mut r = self.name.clone();
        r.append("  ( _ / ");
        let size = size_string(self.total_size);
        r.append(size.as_str());
        r.append(")  ");
        let st = self.state.to_string();
        r.append(st.as_str());
        r.append("\r\n");
        r
    }
}

/// Runs one admitted job to a terminal state. It is handed the outcome of
/// each outside step (the size probe, then fetching and storing the payload)
/// and records it on its own copy of the job; a finished executor goes back
/// to the scheduler, which is the job's one completion signal.
pub struct DownloadExecutor {
    id: usize,
    job: DownloadObject,
}

impl DownloadExecutor {
    pub closed spec fn id_spec(&self) -> usize {
        self.id
    }

    pub closed spec fn job_spec(&self) -> JobView {
        self.job@
    }

    /// Takes charge of the admitted job `download_obj` under `id`. Running
    /// it is the caller's part: it probes the size and hands the outcome to
    /// `record_probe`, then fetches and stores the payload and hands that
    /// outcome to `record_store`.
    pub fn new(id: usize, download_obj: DownloadObject) -> (r: Self)
        requires
            download_obj.state == State::Active,
        ensures
            r.id_spec() == id,
            r.job_spec() == download_obj@,
    {
        DownloadExecutor { id, job: download_obj }
    }

    pub fn id(&self) -> (r: usize)
        ensures
            r == self.id_spec(),
    {
        self.id
    }

    pub fn job(&self) -> (r: &DownloadObject)
        ensures
            r@ == self.job_spec(),
    {
        &self.job
    }

    /// Whether the job reached `Done` or `Failed`.
    pub fn is_finished(&self) -> (r: bool)
        ensures
            r == is_terminal(self.job_spec().state),
    {
        match self.job.state {
            State::Done | State::Failed => true,
            _ => false,
        }
    }

    /// Records the size probe's outcome. On success the size is kept and the
    /// fetch may follow (`true`); on failure the job fails with the message
    /// and no fetch is attempted (`false`).
    pub fn record_probe(&mut self, probe: Result<Option<u64>, String>) -> (go_on: bool)
        requires
            old(self).job_spec().state == State::Active,
        ensures
            final(self).id_spec() == old(self).id_spec(),
            go_on == probe is Ok,
            match probe {
                Ok(size) => final(self).job_spec() == (JobView {
                    total_size: size,
                    ..old(self).job_spec()
                }),
                Err(e) => final(self).job_spec() == (JobView {
                    state: State::Failed,
                    error: Some(e@),
                    ..old(self).job_spec()
                }),
            },
    {
        match probe {
            Ok(size) => {
                self.job.total_size = size;
                true
            },
            Err(e) => {
                self.job.state = State::Failed;
                self.job.resulted_err = Some(e);
                false
            },
        }
    }

    /// Records the outcome of fetching and storing the payload: the name the
    /// file was stored under, or why it was not.
    pub fn record_store(&mut self, stored: Result<String, String>)
        requires
            old(self).job_spec().state == State::Active,
        ensures
            final(self).id_spec() == old(self).id_spec(),
            can_follow(old(self).job_spec().state, final(self).job_spec().state),
            match stored {
                Ok(name) => final(self).job_spec() == (JobView {
                    name: name@,
                    state: State::Done,
                    ..old(self).job_spec()
                }),
                Err(e) => final(self).job_spec() == (JobView {
                    state: State::Failed,
                    error: Some(e@),
                    ..old(self).job_spec()
                }),
            },
    {
        match stored {
            Ok(name) => {
                self.job.name = name;
                self.job.state = State::Done;
            },
            Err(e) => {
                self.job.state = State::Failed;
                self.job.resulted_err = Some(e);
            },
        }
    }

    /// Hands back the id and the finished record.
    pub fn into_parts(self) -> (r: (usize, DownloadObject))
        ensures
            r.0 == self.id_spec(),
            r.1@ == self.job_spec(),
    {
        (self.id, self.job)
    }
}

} // verus!
