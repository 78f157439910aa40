use vstd::prelude::*;
use crate::commands::{ListCommands, ManagerCommands};
use crate::job::{
    can_follow, is_terminal, job_line, opt_view, DownloadExecutor, DownloadObject, JobView, State,
};
use crate::naming::{job_name, job_name_for};

verus! {

/// An admitted job under the id it was given.
pub struct JobEntry {
    pub id: usize,
    pub object: DownloadObject,
}

pub open spec fn entry_view(e: JobEntry) -> (usize, JobView) {
    (e.id, e.object@)
}

pub open spec fn jobs_of(s: Seq<(usize, JobView)>) -> Seq<JobView> {
    s.map_values(|p: (usize, JobView)| p.1)
}

pub open spec fn texts(v: Seq<String>) -> Seq<Seq<char>> {
    v.map_values(|s: String| s@)
}

/// A listing: one line per job, in queue order.
pub open spec fn render_jobs(s: Seq<JobView>) -> Seq<char>
    decreases s.len(),
{
    if s.len() == 0 {
        Seq::empty()
    } else {
        render_jobs(s.drop_last()) + job_line(s.last())
    }
}

/// The first job named `name` at position `i` or later.
pub open spec fn first_named(s: Seq<JobView>, name: Seq<char>, i: int) -> Option<JobView>
    decreases s.len() - i,
{
    if 0 <= i < s.len() {
        if s[i].name == name {
            Some(s[i])
        } else {
            first_named(s, name, i + 1)
        }
    } else {
        None
    }
}

/// The record a job has once admitted.
pub open spec fn admitted(j: JobView) -> JobView {
    JobView { state: State::Active, ..j }
}

/// A job as `add` queues it.
pub open spec fn new_job(name: Seq<char>, download_path: Seq<char>, url: Seq<char>) -> JobView {
    JobView {
        name,
        download_path,
        url,
        state: State::Waiting,
        total_size: None,
        error: None,
    }
}

pub open spec fn objects_view(v: Seq<DownloadObject>) -> Seq<JobView> {
    v.map_values(|o: DownloadObject| o@)
}

pub open spec fn entries_view(v: Seq<JobEntry>) -> Seq<JobView> {
    v.map_values(|e: JobEntry| e.object@)
}

fn render_objects(v: &Vec<DownloadObject>) -> (r: String)
    ensures
        r@ == render_jobs(objects_view(v@)),
{
    let mut r = String::new();
    let mut i: usize = 0;
    while i < v.len()
        invariant
            i <= v@.len(),
            r@ == render_jobs(objects_view(v@).subrange(0, i as int)),
        decreases v@.len() - i,
    {
        let line = v[i].line();
        r.append(line.as_str());
        proof {
            let s = objects_view(v@);
            assert(s.subrange(0, i + 1).drop_last() =~= s.subrange(0, i as int));
        }
        i += 1;
    }
    assert(objects_view(v@).subrange(0, i as int) =~= objects_view(v@));
    r
}

fn render_entries(v: &Vec<JobEntry>) -> (r: String)
    ensures
        r@ == render_jobs(entries_view(v@)),
{
    let mut r = String::new();
    let mut i: usize = 0;
    while i < v.len()
        invariant
            i <= v@.len(),
            r@ == render_jobs(entries_view(v@).subrange(0, i as int)),
        decreases v@.len() - i,
    {
        let line = v[i].object.line();
        r.append(line.as_str());
        proof {
            let s = entries_view(v@);
            assert(s.subrange(0, i + 1).drop_last() =~= s.subrange(0, i as int));
        }
        i += 1;
    }
    assert(entries_view(v@).subrange(0, i as int) =~= entries_view(v@));
    r
}

fn search_objects(v: &Vec<DownloadObject>, name: &String) -> (r: Option<String>)
    ensures
        match first_named(objects_view(v@), name@, 0) {
            Some(j) => r is Some && r->0@ == job_line(j),
            None => r is None,
        },
{
    let mut i: usize = 0;
    while i < v.len()
        invariant
            i <= v@.len(),
            first_named(objects_view(v@), name@, 0) == first_named(objects_view(v@), name@, i as int),
        decreases v@.len() - i,
    {
        if v[i].name.eq(name) {
            return Some(v[i].line());
        }
        i += 1;
    }
    None
}

fn search_entries(v: &Vec<JobEntry>, name: &String) -> (r: Option<String>)
    ensures
        match first_named(entries_view(v@), name@, 0) {
            Some(j) => r is Some && r->0@ == job_line(j),
            None => r is None,
        },
{
    let mut i: usize = 0;
    while i < v.len()
        invariant
            i <= v@.len(),
            first_named(entries_view(v@), name@, 0) == first_named(entries_view(v@), name@, i as int),
        decreases v@.len() - i,
    {
        if v[i].object.name.eq(name) {
            return Some(v[i].object.line());
        }
        i += 1;
    }
    None
}

/// The text `Add` answers with once the job is queued.
pub open spec fn added_text() -> Seq<char> {
    "File added"@
}

/// The text `Info` answers with when no job has the name.
pub open spec fn not_found_text() -> Seq<char> {
    "This file is not found!!"@
}

/// The fixed answer to `Cancel`, which changes nothing.
pub open spec fn cancel_text() -> Seq<char> {
    "cancel command [not working yet]"@
}

/// The error `add` gives where no file name can be derived.
pub open spec fn no_name_text() -> Seq<char> {
    "no file name can be derived from the url"@
}

/// Owns the three queues: waiting (FIFO), active (ordered by id) and done
/// (in order of completion). Ids are handed out on admission, counting up.
pub struct Scheduler {
    waiting_list: Vec<DownloadObject>,
    active_list: Vec<JobEntry>,
    done_list: Vec<JobEntry>,
    next_id: usize,
    download_path: String,
    max_jobs: usize,
}

impl Scheduler {
    pub closed spec fn waiting(&self) -> Seq<JobView> {
        self.waiting_list@.map_values(|o: DownloadObject| o@)
    }

    pub closed spec fn active(&self) -> Seq<(usize, JobView)> {
        self.active_list@.map_values(|e: JobEntry| entry_view(e))
    }

    pub closed spec fn done(&self) -> Seq<(usize, JobView)> {
        self.done_list@.map_values(|e: JobEntry| entry_view(e))
    }

    /// The id the next admitted job gets.
    pub closed spec fn next_id(&self) -> nat {
        self.next_id as nat
    }

    pub closed spec fn max_jobs_spec(&self) -> nat {
        self.max_jobs as nat
    }

    pub closed spec fn default_path(&self) -> Seq<char> {
        self.download_path@
    }

    /// Every queue holds jobs in its own state, no more jobs are active than
    /// allowed, active ids rise strictly, and no id is issued twice.
    pub open spec fn wf(&self) -> bool {
        &&& forall|i: int| 0 <= i < self.waiting().len() ==> (#[trigger] self.waiting()[i]).state == State::Waiting
        &&& self.active().len() <= self.max_jobs_spec()
        &&& forall|i: int| 0 <= i < self.active().len() ==> {
            &&& (#[trigger] self.active()[i]).1.state == State::Active
            &&& self.active()[i].0 < self.next_id()
        }
        &&& forall|i: int, j: int| 0 <= i < j < self.active().len() ==> (#[trigger] self.active()[i]).0 < (#[trigger] self.active()[j]).0
        &&& forall|i: int| 0 <= i < self.done().len() ==> {
            &&& is_terminal((#[trigger] self.done()[i]).1.state)
            &&& self.done()[i].0 < self.next_id()
        }
        &&& forall|i: int, j: int| 0 <= i < j < self.done().len() ==> (#[trigger] self.done()[i]).0 != (#[trigger] self.done()[j]).0
        &&& forall|i: int, j: int| 0 <= i < self.done().len() && 0 <= j < self.active().len() ==> (#[trigger] self.done()[i]).0 != (#[trigger] self.active()[j]).0
    }

    /// The queues, the id counter and the settings are the same in both.
    pub open spec fn same_as(&self, other: &Scheduler) -> bool {
        &&& self.waiting() == other.waiting()
        &&& self.active() == other.active()
        &&& self.done() == other.done()
        &&& self.next_id() == other.next_id()
        &&& self.max_jobs_spec() == other.max_jobs_spec()
        &&& self.default_path() == other.default_path()
    }

    /// Whether the admission step has a job to promote.
    pub open spec fn can_promote(&self) -> bool {
        &&& self.active().len() < self.max_jobs_spec()
        &&& self.waiting().len() > 0
        &&& self.next_id() < usize::MAX
    }

    pub fn new(max_jobs: usize, download_path: String) -> (r: Self)
        ensures
            r.wf(),
            r.waiting() == Seq::<JobView>::empty(),
            r.active() == Seq::<(usize, JobView)>::empty(),
            r.done() == Seq::<(usize, JobView)>::empty(),
            r.next_id() == 0,
            r.max_jobs_spec() == max_jobs,
            r.default_path() == download_path@,
    {
        let r = Scheduler {
            waiting_list: Vec::new(),
            active_list: Vec::new(),
            done_list: Vec::new(),
            next_id: 0,
            download_path,
            max_jobs,
        };
        assert(r.waiting() =~= Seq::<JobView>::empty());
        assert(r.active() =~= Seq::<(usize, JobView)>::empty());
        assert(r.done() =~= Seq::<(usize, JobView)>::empty());
        r
    }

    pub fn max_jobs(&self) -> (r: usize)
        ensures
            r == self.max_jobs_spec(),
    {
        self.max_jobs
    }

    pub fn download_path(&self) -> (r: &String)
        ensures
            r@ == self.default_path(),
    {
        &self.download_path
    }

    pub fn waiting_len(&self) -> (r: usize)
        ensures
            r == self.waiting().len(),
    {
        self.waiting_list.len()
    }

    pub fn active_len(&self) -> (r: usize)
        ensures
            r == self.active().len(),
    {
        self.active_list.len()
    }

    pub fn done_len(&self) -> (r: usize)
        ensures
            r == self.done().len(),
    {
        self.done_list.len()
    }

    /// The waiting queue's listing.
    pub fn stringify_waiting_list(&self) -> (r: String)
        ensures
            r@ == render_jobs(self.waiting()),
    {
        assert(objects_view(self.waiting_list@) == self.waiting());
        render_objects(&self.waiting_list)
    }

    /// The active set's listing, in order of id.
    pub fn stringify_active_list(&self) -> (r: String)
        ensures
            r@ == render_jobs(jobs_of(self.active())),
    {
        assert(entries_view(self.active_list@) =~= jobs_of(self.active()));
        render_entries(&self.active_list)
    }

    /// The done list's listing, in order of completion.
    pub fn stringify_done_list(&self) -> (r: String)
        ensures
            r@ == render_jobs(jobs_of(self.done())),
    {
        assert(entries_view(self.done_list@) =~= jobs_of(self.done()));
        render_entries(&self.done_list)
    }

    /// The sections a `List` command answers with: for `All`, waiting, then
    /// active, then done.
    pub open spec fn listing(&self, scope: ListCommands) -> Seq<Seq<char>> {
        match scope {
            ListCommands::All => seq![
                render_jobs(self.waiting()),
                render_jobs(jobs_of(self.active())),
                render_jobs(jobs_of(self.done())),
            ],
            ListCommands::Active => seq![render_jobs(jobs_of(self.active()))],
            ListCommands::Done => seq![render_jobs(jobs_of(self.done()))],
        }
    }

    pub fn stringify_list(&self, scope: &ListCommands) -> (r: Vec<String>)
        ensures
            texts(r@) == self.listing(*scope),
    {
        let r = match scope {
            ListCommands::All => vec![
                self.stringify_waiting_list(),
                self.stringify_active_list(),
                self.stringify_done_list(),
            ],
            ListCommands::Active => vec![self.stringify_active_list()],
            ListCommands::Done => vec![self.stringify_done_list()],
        };
        assert(texts(r@) =~= self.listing(*scope));
        r
    }

    /// The job `Info` describes: the first of that name in the done list,
    /// else in the waiting queue, else in the active set.
    pub open spec fn info_of(&self, name: Seq<char>) -> Option<JobView> {
        match first_named(jobs_of(self.done()), name, 0) {
            Some(j) => Some(j),
            None => match first_named(self.waiting(), name, 0) {
                Some(j) => Some(j),
                None => first_named(jobs_of(self.active()), name, 0),
            },
        }
    }

    pub fn get_info(&self, name: &String) -> (r: Option<String>)
        ensures
            match self.info_of(name@) {
                Some(j) => r is Some && r->0@ == job_line(j),
                None => r is None,
            },
    {
        assert(entries_view(self.done_list@) =~= jobs_of(self.done()));
        assert(entries_view(self.active_list@) =~= jobs_of(self.active()));
        assert(objects_view(self.waiting_list@) == self.waiting());
        let d = search_entries(&self.done_list, name);
        if d.is_some() {
            return d;
        }
        let w = search_objects(&self.waiting_list, name);
        if w.is_some() {
            return w;
        }
        search_entries(&self.active_list, name)
    }

    /// Queues a job for `url` in `download_path`. Its name is the url's last
    /// segment, or `custom_name` with that segment's extension; where no name
    /// can be derived nothing is queued and an error is returned.
    pub fn add(&mut self, custom_name: Option<String>, download_path: String, url: String) -> (r:
        Result<(), String>)
        requires
            old(self).wf(),
        ensures
            final(self).wf(),
            final(self).active() == old(self).active(),
            final(self).done() == old(self).done(),
            final(self).next_id() == old(self).next_id(),
            final(self).max_jobs_spec() == old(self).max_jobs_spec(),
            final(self).default_path() == old(self).default_path(),
            match job_name(url@, opt_view(custom_name)) {
                None => r is Err && r->Err_0@ == no_name_text() && final(self).waiting() == old(self).waiting(),
                Some(n) => r is Ok && final(self).waiting() == old(self).waiting().push(
                    new_job(n, download_path@, url@),
                ),
            },
    {
        match job_name_for(url.as_str(), &custom_name) {
            None => Err(String::from_str("no file name can be derived from the url")),
            Some(name) => {
                let obj = DownloadObject::waiting(name, download_path, url);
                self.waiting_list.push(obj);
                proof {
                    assert(self.waiting() =~= old(self).waiting().push(obj@));
                }
                Ok(())
            },
        }
    }

    /// Carries out one command and returns the texts it answers with.
    /// `Add` queues a job in the given directory, or the default one; the
    /// others leave every queue as it was.
    pub fn dispatch(&mut self, command: ManagerCommands) -> (r: Vec<String>)
        requires
            old(self).wf(),
        ensures
            final(self).wf(),
            match command {
                ManagerCommands::Add { url, custom_name, custom_download_path } => {
                    let path = match custom_download_path {
                        Some(p) => p@,
                        None => old(self).default_path(),
                    };
                    &&& final(self).active() == old(self).active()
                    &&& final(self).done() == old(self).done()
                    &&& final(self).next_id() == old(self).next_id()
                    &&& final(self).max_jobs_spec() == old(self).max_jobs_spec()
                    &&& final(self).default_path() == old(self).default_path()
                    &&& match job_name(url@, opt_view(custom_name)) {
                        None => final(self).waiting() == old(self).waiting() && texts(r@) == seq![
                            no_name_text(),
                        ],
                        Some(n) => final(self).waiting() == old(self).waiting().push(
                            new_job(n, path, url@),
                        ) && texts(r@) == seq![added_text()],
                    }
                },
                ManagerCommands::List { subcommands } => final(self).same_as(old(self)) && texts(r@)
                    == old(self).listing(subcommands),
                ManagerCommands::Info { filename } => final(self).same_as(old(self)) && texts(r@)
                    == seq![
                    match old(self).info_of(filename@) {
                        Some(j) => job_line(j),
                        None => not_found_text(),
                    },
                ],
                ManagerCommands::Cancel { .. } => final(self).same_as(old(self)) && texts(r@) == seq![
                    cancel_text(),
                ],
                ManagerCommands::Start { .. } => final(self).same_as(old(self)) && r@.len() == 0,
            },
    {
        match command {
            ManagerCommands::Add { url, custom_name, custom_download_path } => {
                let path = match custom_download_path {
                    Some(p) => p,
                    None => self.download_path.clone(),
                };
                let res = self.add(custom_name, path, url);
                let r = match res {
                    Ok(()) => vec![String::from_str("File added")],
                    Err(e) => vec![e],
                };
                assert(texts(r@) =~= seq![r@[0]@]);
                r
            },
            ManagerCommands::List { subcommands } => self.stringify_list(&subcommands),
            ManagerCommands::Info { filename } => {
                let line = match self.get_info(&filename) {
                    Some(l) => l,
                    None => String::from_str("This file is not found!!"),
                };
                let r = vec![line];
                assert(texts(r@) =~= seq![line@]);
                r
            },
            ManagerCommands::Cancel { .. } => {
                let r = vec![String::from_str("cancel command [not working yet]")];
                assert(texts(r@) =~= seq![r@[0]@]);
                r
            },
            ManagerCommands::Start { .. } => Vec::new(),
        }
    }

    /// The admission step: where fewer jobs are active than allowed, the
    /// front of the waiting queue becomes active under the next id, and its
    /// executor is handed out to be run. Otherwise nothing changes.
    pub fn promote(&mut self) -> (r: Option<DownloadExecutor>)
        requires
            old(self).wf(),
        ensures
            final(self).wf(),
            final(self).done() == old(self).done(),
            final(self).max_jobs_spec() == old(self).max_jobs_spec(),
            final(self).default_path() == old(self).default_path(),
            old(self).can_promote() ==> {
                &&& r is Some
                &&& r->0.id_spec() == old(self).next_id()
                &&& r->0.job_spec() == admitted(old(self).waiting()[0])
                &&& can_follow(old(self).waiting()[0].state, r->0.job_spec().state)
                &&& final(self).waiting() == old(self).waiting().drop_first()
                &&& final(self).active() == old(self).active().push(
                    (old(self).next_id() as usize, admitted(old(self).waiting()[0])),
                )
                &&& final(self).active().len() == old(self).active().len() + 1
                &&& final(self).next_id() == old(self).next_id() + 1
            },
            !old(self).can_promote() ==> r is None && final(self).same_as(old(self)),
    {
        if self.active_list.len() < self.max_jobs && self.waiting_list.len() > 0 && self.next_id
            < usize::MAX {
            let mut obj = self.waiting_list.remove(0);
            obj.state = State::Active;
            let id = self.next_id;
            let snapshot = obj.snapshot();
            self.active_list.push(JobEntry { id, object: snapshot });
            self.next_id = id + 1;
            proof {
                assert(old(self).waiting()[0] == old(self).waiting_list@[0]@);
                assert(self.waiting() =~= old(self).waiting().drop_first());
                assert(self.active() =~= old(self).active().push((id, obj@)));
                assert(self.done() =~= old(self).done());
                assert forall|i: int| 0 <= i < self.waiting().len() implies (#[trigger] self.waiting()[i]).state
                    == State::Waiting by {
                    assert(self.waiting()[i] == old(self).waiting()[i + 1]);
                }
                assert forall|i: int, j: int| 0 <= i < j < self.active().len() implies (#[trigger] self.active()[i]).0
                    < (#[trigger] self.active()[j]).0 by {
                    if j < old(self).active().len() {
                        assert(self.active()[i] == old(self).active()[i]);
                        assert(self.active()[j] == old(self).active()[j]);
                    } else {
                        assert(self.active()[i] == old(self).active()[i]);
                    }
                }
                assert forall|i: int, j: int| 0 <= i < self.done().len() && 0 <= j < self.active().len() implies (#[trigger] self.done()[i]).0
                    != (#[trigger] self.active()[j]).0 by {
                    if j < old(self).active().len() {
                        assert(self.active()[j] == old(self).active()[j]);
                    }
                }
                assert forall|i: int| 0 <= i < self.active().len() implies {
                    &&& (#[trigger] self.active()[i]).1.state == State::Active
                    &&& self.active()[i].0 < self.next_id()
                } by {
                    if i < old(self).active().len() {
                        assert(self.active()[i] == old(self).active()[i]);
                    }
                }
            }
            Some(DownloadExecutor::new(id, obj))
        } else {
            None
        }
    }

    /// Replaces the record of the active job `id` with a newer copy from its
    /// executor, such as one that holds the probed size, so that listings
    /// show it while the job runs. The job stays active; where `id` is not
    /// active nothing changes.
    pub fn update_active(&mut self, id: usize, record: DownloadObject) -> (r: bool)
        requires
            old(self).wf(),
            record.state == State::Active,
        ensures
            final(self).wf(),
            final(self).waiting() == old(self).waiting(),
            final(self).done() == old(self).done(),
            final(self).next_id() == old(self).next_id(),
            final(self).max_jobs_spec() == old(self).max_jobs_spec(),
            final(self).default_path() == old(self).default_path(),
            r == exists|k: int| 0 <= k < old(self).active().len() && #[trigger] old(self).active()[k].0 == id,
            r ==> exists|k: int| {
                &&& 0 <= k < old(self).active().len()
                &&& #[trigger] old(self).active()[k].0 == id
                &&& final(self).active() == old(self).active().update(k, (id, record@))
            },
            !r ==> final(self).same_as(old(self)),
    {
        let n = self.active_list.len();
        let mut k: usize = 0;
        while k < n && self.active_list[k].id != id
            invariant
                k <= n,
                n == self.active_list@.len(),
                self.active() == old(self).active(),
                forall|m: int| 0 <= m < k ==> #[trigger] self.active()[m].0 != id,
            decreases n - k,
        {
            k += 1;
        }
        if k < n {
            let ghost entry = (id, record@);
            self.active_list[k] = JobEntry { id, object: record };
            proof {
                let oa = old(self).active();
                assert(oa[k as int].0 == id);
                assert(self.active() =~= oa.update(k as int, entry));
                assert(self.done() =~= old(self).done());
                assert(self.waiting() =~= old(self).waiting());
                assert forall|i: int, j: int| 0 <= i < j < self.active().len() implies (#[trigger] self.active()[i]).0
                    < (#[trigger] self.active()[j]).0 by {
                    assert(self.active()[i].0 == oa[i].0);
                    assert(self.active()[j].0 == oa[j].0);
                }
                assert forall|i: int| 0 <= i < self.active().len() implies {
                    &&& (#[trigger] self.active()[i]).1.state == State::Active
                    &&& self.active()[i].0 < self.next_id()
                } by {
                    assert(self.active()[i].0 == oa[i].0);
                    if i != k {
                        assert(self.active()[i] == oa[i]);
                    }
                }
                assert forall|i: int, j: int| 0 <= i < self.done().len() && 0 <= j < self.active().len() implies (#[trigger] self.done()[i]).0
                    != (#[trigger] self.active()[j]).0 by {
                    assert(self.active()[j].0 == oa[j].0);
                }
            }
            true
        } else {
            false
        }
    }

    /// The completion step for one finished executor: its job leaves the
    /// active set and joins the done list with the record the executor
    /// kept. An executor whose id is not active changes nothing.
    pub fn complete(&mut self, finished: DownloadExecutor) -> (r: bool)
        requires
            old(self).wf(),
            is_terminal(finished.job_spec().state),
        ensures
            final(self).wf(),
            final(self).waiting() == old(self).waiting(),
            final(self).next_id() == old(self).next_id(),
            final(self).max_jobs_spec() == old(self).max_jobs_spec(),
            final(self).default_path() == old(self).default_path(),
            final(self).active().len() <= old(self).active().len(),
            final(self).done().len() >= old(self).done().len(),
            forall|i: int| 0 <= i < old(self).done().len() ==> #[trigger] final(self).done()[i] == old(self).done()[i],
            r == exists|k: int| 0 <= k < old(self).active().len() && #[trigger] old(self).active()[k].0 == finished.id_spec(),
            r ==> exists|k: int| {
                &&& 0 <= k < old(self).active().len()
                &&& #[trigger] old(self).active()[k].0 == finished.id_spec()
                &&& can_follow(old(self).active()[k].1.state, finished.job_spec().state)
                &&& final(self).active() == old(self).active().remove(k)
                &&& final(self).done() == old(self).done().push((finished.id_spec(), finished.job_spec()))
            },
            !r ==> final(self).same_as(old(self)),
    {
        let (id, obj) = finished.into_parts();
        let n = self.active_list.len();
        let mut k: usize = 0;
        while k < n && self.active_list[k].id != id
            invariant
                k <= n,
                n == self.active_list@.len(),
                self.active() == old(self).active(),
                forall|m: int| 0 <= m < k ==> #[trigger] self.active()[m].0 != id,
            decreases n - k,
        {
            k += 1;
        }
        if k < n {
            let ghost old_done = self.done();
            let ghost entry = (id, obj@);
            self.active_list.remove(k);
            self.done_list.push(JobEntry { id, object: obj });
            proof {
                let oa = old(self).active();
                assert(oa[k as int].0 == id);
                assert(self.active() =~= oa.remove(k as int));
                assert(self.done() =~= old_done.push(entry));
                assert forall|i: int, j: int| 0 <= i < j < self.active().len() implies (#[trigger] self.active()[i]).0
                    < (#[trigger] self.active()[j]).0 by {
                    let ii = if i < k { i } else { i + 1 };
                    let jj = if j < k { j } else { j + 1 };
                    assert(self.active()[i] == oa[ii]);
                    assert(self.active()[j] == oa[jj]);
                }
                assert forall|i: int| 0 <= i < self.active().len() implies {
                    &&& (#[trigger] self.active()[i]).1.state == State::Active
                    &&& self.active()[i].0 < self.next_id()
                } by {
                    let ii = if i < k { i } else { i + 1 };
                    assert(self.active()[i] == oa[ii]);
                }
                assert forall|i: int| 0 <= i < self.done().len() implies {
                    &&& is_terminal((#[trigger] self.done()[i]).1.state)
                    &&& self.done()[i].0 < self.next_id()
                } by {
                    if i < old_done.len() {
                        assert(self.done()[i] == old_done[i]);
                    } else {
                        assert(oa[k as int].0 < old(self).next_id());
                    }
                }
                assert forall|i: int, j: int| 0 <= i < j < self.done().len() implies (#[trigger] self.done()[i]).0
                    != (#[trigger] self.done()[j]).0 by {
                    assert(self.done()[i] == old_done[i]);
                    if j < old_done.len() {
                        assert(self.done()[j] == old_done[j]);
                    } else {
                        assert(old_done[i].0 != oa[k as int].0);
                    }
                }
                assert forall|i: int, j: int| 0 <= i < self.done().len() && 0 <= j < self.active().len() implies (#[trigger] self.done()[i]).0
                    != (#[trigger] self.active()[j]).0 by {
                    let jj = if j < k { j } else { j + 1 };
                    assert(self.active()[j] == oa[jj]);
                    if i < old_done.len() {
                        assert(self.done()[i] == old_done[i]);
                        assert(old_done[i].0 != oa[jj].0);
                    } else {
                        if jj < k {
                            assert(oa[jj].0 < oa[k as int].0);
                        } else {
                            assert(oa[k as int].0 < oa[jj].0);
                        }
                    }
                }
            }
            true
        } else {
            false
        }
    }
}

proof fn lemma_first_named_found(s: Seq<JobView>, name: Seq<char>, i: int, k: int)
    requires
        0 <= i <= k < s.len(),
        s[k].name == name,
    ensures
        first_named(s, name, i) is Some,
        first_named(s, name, i)->0.name == name,
    decreases k - i,
{
    if s[i].name != name {
        lemma_first_named_found(s, name, i + 1, k);
    }
}

/// `Info` looks in the done list first: where a finished job has the name,
/// the answer is the first such finished job, whatever waits or runs under
/// the same name.
pub proof fn lemma_info_prefers_done(s: Scheduler, name: Seq<char>, k: int)
    requires
        0 <= k < s.done().len(),
        s.done()[k].1.name == name,
    ensures
        s.info_of(name) is Some,
        s.info_of(name) == first_named(jobs_of(s.done()), name, 0),
        s.info_of(name)->0.name == name,
{
    assert(jobs_of(s.done())[k] == s.done()[k].1);
    lemma_first_named_found(jobs_of(s.done()), name, 0, k);
}

/// `Info` falls back to the waiting queue before the active set.
pub proof fn lemma_info_prefers_waiting(s: Scheduler, name: Seq<char>, k: int)
    requires
        first_named(jobs_of(s.done()), name, 0) is None,
        0 <= k < s.waiting().len(),
        s.waiting()[k].name == name,
    ensures
        s.info_of(name) is Some,
        s.info_of(name) == first_named(s.waiting(), name, 0),
{
    lemma_first_named_found(s.waiting(), name, 0, k);
}

/// Listing all queues gives the waiting section, then the active section,
/// then the done section.
pub proof fn lemma_list_all_order(s: Scheduler)
    ensures
        s.listing(ListCommands::All).len() == 3,
        s.listing(ListCommands::All) == seq![render_jobs(s.waiting())] + s.listing(ListCommands::Active)
            + s.listing(ListCommands::Done),
{
    assert(s.listing(ListCommands::All) =~= seq![render_jobs(s.waiting())] + s.listing(
        ListCommands::Active,
    ) + s.listing(ListCommands::Done));
}

/// The ids a scheduler has issued and still tracks: the active ones, then
/// the done ones.
pub open spec fn issued_ids(s: Scheduler) -> Seq<usize> {
    s.active().map_values(|p: (usize, JobView)| p.0) + s.done().map_values(
        |p: (usize, JobView)| p.0,
    )
}

/// No two tracked jobs share an id, and every id lies below the next one
/// to be issued, so ids handed out later are larger.
pub proof fn lemma_ids_unique(s: Scheduler)
    requires
        s.wf(),
    ensures
        forall|i: int, j: int|
            0 <= i < j < issued_ids(s).len() ==> #[trigger] issued_ids(s)[i] != #[trigger] issued_ids(s)[j],
        forall|i: int| 0 <= i < issued_ids(s).len() ==> #[trigger] issued_ids(s)[i] < s.next_id(),
{
    let a = s.active().map_values(|p: (usize, JobView)| p.0);
    let d = s.done().map_values(|p: (usize, JobView)| p.0);
    let ids = issued_ids(s);
    assert forall|i: int, j: int| 0 <= i < j < ids.len() implies #[trigger] ids[i] != #[trigger] ids[j] by {
        if j < a.len() {
            assert(ids[i] == s.active()[i].0 && ids[j] == s.active()[j].0);
        } else if i < a.len() {
            assert(ids[i] == s.active()[i].0 && ids[j] == s.done()[j - a.len()].0);
        } else {
            assert(ids[i] == s.done()[i - a.len()].0 && ids[j] == s.done()[j - a.len()].0);
        }
    }
    assert forall|i: int| 0 <= i < ids.len() implies #[trigger] ids[i] < s.next_id() by {
        if i < a.len() {
            assert(ids[i] == s.active()[i].0);
        } else {
            assert(ids[i] == s.done()[i - a.len()].0);
        }
    }
}

/// No more jobs are active than the limit allows.
pub proof fn lemma_active_bounded(s: Scheduler)
    requires
        s.wf(),
    ensures
        s.active().len() <= s.max_jobs_spec(),
{
}

/// Each job's state matches its queue: waiting jobs wait, active jobs run,
/// done jobs are finished for good.
pub proof fn lemma_states_match_queues(s: Scheduler)
    requires
        s.wf(),
    ensures
        forall|i: int| 0 <= i < s.waiting().len() ==> (#[trigger] s.waiting()[i]).state == State::Waiting,
        forall|i: int| 0 <= i < s.active().len() ==> (#[trigger] s.active()[i]).1.state == State::Active,
        forall|i: int| 0 <= i < s.done().len() ==> is_terminal((#[trigger] s.done()[i]).1.state),
{
}

/// A job's states as observed over time: a prefix of
/// `Waiting, Active, Done` or of `Waiting, Active, Failed`.
pub open spec fn valid_history(h: Seq<State>) -> bool {
    &&& h.len() <= 3
    &&& h.len() >= 1 ==> h[0] == State::Waiting
    &&& h.len() >= 2 ==> h[1] == State::Active
    &&& h.len() >= 3 ==> is_terminal(h[2])
}

/// Observing a job again adds its current state to its history only when
/// the state changed. A history that is a valid prefix stays one when the
/// next state is the same as the last or a move of the state machine, so
/// no state is skipped or revisited.
pub proof fn lemma_history_step(h: Seq<State>, next: State)
    requires
        valid_history(h),
        h.len() >= 1,
        can_follow(h.last(), next),
    ensures
        valid_history(h.push(next)),
{
    if h.len() == 3 {
        assert(is_terminal(h[2]));
    }
}

/// The first observation of a job is its `Waiting` state in the queue.
pub proof fn lemma_history_start()
    ensures
        valid_history(seq![State::Waiting]),
{
}

/// Nothing leaves a terminal state, so a finished job's history is final.
pub proof fn lemma_terminal_is_final(from: State, to: State)
    requires
        is_terminal(from),
    ensures
        !can_follow(from, to),
{
}

} // verus!
