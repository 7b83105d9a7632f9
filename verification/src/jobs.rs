//! The jobs that are under way, and how one of them is cancelled.

use crate::numbers::decimal;
use crate::numbers::decimal_text;
use crate::text::concat2;
use crate::text::copy_opt;
use crate::text::opt_text;
use crate::text::push_text;
use crate::text::same_text;
use crate::text::texts;
use crate::tile_stages::TileJobRequest;
use vstd::prelude::*;

verus! {

/// What is known of a job while it is under way. It stays with the job until its tiles have been
/// sent, so that sending can be cancelled too.
#[derive(Debug, Clone)]
pub struct JobControl {
    pub cancelled: bool,
    pub current_pid: Option<u32>,
    pub working_dir: Option<String>,
    pub output_dir: Option<String>,
}

impl Default for JobControl {
    fn default() -> (r: Self)
        ensures
            !r.cancelled,
            r.current_pid is None,
            r.working_dir is None,
            r.output_dir is None,
    {
        JobControl { cancelled: false, current_pid: None, working_dir: None, output_dir: None }
    }
}

impl JobControl {
    /// The control of a job that has just been accepted, whose tiles go to a directory.
    pub fn for_request(req: &TileJobRequest, output_dir: &str) -> (r: Self)
        ensures
            !r.cancelled,
            r.current_pid is None,
            opt_text(r.working_dir) == opt_text(req.working_dir),
            opt_text(r.output_dir) == Some(output_dir@),
    {
        let mut control = JobControl::default();
        control.working_dir = copy_opt(&req.working_dir);
        control.output_dir = Some(output_dir.to_string());
        control
    }

    /// Marks the job as cancelled. The mark is never taken back.
    pub fn cancel(&mut self)
        ensures
            final(self).cancelled,
            final(self).current_pid == old(self).current_pid,
            final(self).working_dir == old(self).working_dir,
            final(self).output_dir == old(self).output_dir,
    {
        self.cancelled = true;
    }

    /// Remembers the process that runs for the job, or that none does.
    pub fn set_pid(&mut self, pid: Option<u32>)
        ensures
            final(self).cancelled == old(self).cancelled,
            final(self).current_pid == pid,
            final(self).working_dir == old(self).working_dir,
            final(self).output_dir == old(self).output_dir,
    {
        self.current_pid = pid;
    }
}

/// The jobs under way, each under its own identifier. `C` is a handle on the control of a job.
pub struct JobState<C> {
    entries: Vec<(String, C)>,
}

impl<C> JobState<C> {
    /// No identifier occurs twice.
    pub closed spec fn wf(self) -> bool {
        forall|i: int, j: int|
            #![trigger self.entries@[i], self.entries@[j]]
            0 <= i < j < self.entries@.len() ==> self.entries@[i].0@ != self.entries@[j].0@
    }

    spec fn holds(self, i: int, id: Seq<char>) -> bool {
        0 <= i < self.entries@.len() && self.entries@[i].0@ == id
    }

    spec fn position(self, id: Seq<char>) -> int {
        choose|i: int| self.holds(i, id)
    }

    pub closed spec fn map(self) -> Map<Seq<char>, C> {
        Map::new(
            |id: Seq<char>| exists|i: int| self.holds(i, id),
            |id: Seq<char>| self.entries@[self.position(id)].1,
        )
    }
}

impl<C> View for JobState<C> {
    type V = Map<Seq<char>, C>;

    open spec fn view(&self) -> Map<Seq<char>, C> {
        self.map()
    }
}

impl<C> Default for JobState<C> {
    fn default() -> (r: Self)
        ensures
            r.wf(),
            r@ == Map::<Seq<char>, C>::empty(),
    {
        JobState::new()
    }
}

impl<C> JobState<C> {
    /// No job is under way.
    pub fn new() -> (r: Self)
        ensures
            r.wf(),
            r@ == Map::<Seq<char>, C>::empty(),
    {
        let r = JobState { entries: Vec::new() };
        assert(r@ =~= Map::<Seq<char>, C>::empty());
        r
    }

    proof fn lemma_position(self, i: int, id: Seq<char>)
        requires
            self.wf(),
            self.holds(i, id),
        ensures
            self@.contains_key(id),
            self.position(id) == i,
            self@[id] == self.entries@[i].1,
    {
        let p = self.position(id);
        assert(self.holds(p, id));
        if p < i {
            assert(self.entries@[p].0@ != self.entries@[i].0@);
        } else if i < p {
            assert(self.entries@[i].0@ != self.entries@[p].0@);
        }
    }

    fn find(&self, job_id: &str) -> (r: Option<usize>)
        requires
            self.wf(),
        ensures
            match r {
                Some(i) => self.holds(i as int, job_id@) && self@.contains_key(job_id@)
                    && self@[job_id@] == self.entries@[i as int].1,
                None => !self@.contains_key(job_id@),
            },
    {
        let mut i: usize = 0;
        while i < self.entries.len()
            invariant
                self.wf(),
                i <= self.entries@.len(),
                forall|j: int| 0 <= j < i ==> self.entries@[j].0@ != job_id@,
            decreases self.entries@.len() - i,
        {
            if same_text(self.entries[i].0.as_str(), job_id) {
                proof {
                    self.lemma_position(i as int, job_id@);
                }
                return Some(i);
            }
            i += 1;
        }
        None
    }

    /// Takes a job among those under way, unless one with its identifier is under way already.
    pub fn register(&mut self, job_id: &str, control: C) -> (r: Result<(), String>)
        requires
            old(self).wf(),
        ensures
            final(self).wf(),
            r is Ok <==> !old(self)@.contains_key(job_id@),
            r is Ok ==> final(self)@ == old(self)@.insert(job_id@, control),
            r is Err ==> final(self)@ == old(self)@,
            r matches Err(e) ==> e@ == "任务ID已存在: "@ + job_id@,
    {
        if self.find(job_id).is_some() {
            return Err(concat2("任务ID已存在: ", job_id));
        }
        let ghost before = *self;
        self.entries.push((job_id.to_string(), control));
        proof {
            let n = before.entries@.len() as int;
            assert(self.holds(n, job_id@));
            assert forall|i: int, j: int|
                #![trigger self.entries@[i], self.entries@[j]]
                0 <= i < j < self.entries@.len() implies self.entries@[i].0@
                != self.entries@[j].0@ by {
                assert(self.entries@[i] == before.entries@[i]);
                if j < n {
                    assert(self.entries@[j] == before.entries@[j]);
                } else {
                    if before.entries@[i].0@ == job_id@ {
                        assert(before.holds(i, job_id@));
                    }
                }
            }
            self.lemma_position(n, job_id@);
            let expected = before@.insert(job_id@, control);
            assert forall|id: Seq<char>| self@.contains_key(id) == expected.contains_key(id) by {
                if before@.contains_key(id) {
                    assert(self.holds(before.position(id), id));
                }
                if self@.contains_key(id) && id != job_id@ {
                    assert(before.holds(self.position(id), id));
                }
            }
            assert forall|id: Seq<char>| expected.contains_key(id) implies self@[id]
                == expected[id] by {
                if id != job_id@ {
                    let i = before.position(id);
                    assert(before.holds(i, id));
                    assert(self.holds(i, id));
                    self.lemma_position(i, id);
                    before.lemma_position(i, id);
                }
            }
            assert(self@ =~= expected);
        }
        Ok(())
    }

    /// The handle of a job, where it is under way.
    pub fn get(&self, job_id: &str) -> (r: Option<&C>)
        requires
            self.wf(),
        ensures
            match r {
                Some(c) => self@.contains_key(job_id@) && *c == self@[job_id@],
                None => !self@.contains_key(job_id@),
            },
    {
        match self.find(job_id) {
            Some(i) => Some(&self.entries[i].1),
            None => None,
        }
    }

    /// Takes a job out of those under way; nothing happens where it is not.
    pub fn remove(&mut self, job_id: &str)
        requires
            old(self).wf(),
        ensures
            final(self).wf(),
            final(self)@ == old(self)@.remove(job_id@),
    {
        let ghost before = *self;
        match self.find(job_id) {
            Some(at) => {
                let _entry = self.entries.remove(at);
                proof {
                    let k = at as int;
                    assert(removed_at(before, *self, k));
                    lemma_removed_wf(before, *self, k);
                    let expected = before@.remove(job_id@);
                    assert forall|id: Seq<char>|
                        (#[trigger] self@.contains_key(id)) == expected.contains_key(id) && (
                        self@.contains_key(id) ==> self@[id] == expected[id]) by {
                        lemma_removed(before, *self, k, job_id@, id);
                    }
                    assert(self@ =~= expected);
                }
            },
            None => {
                assert(before@.remove(job_id@) =~= before@);
            },
        }
    }
}

/// The second table is the first without its entry at `k`.
spec fn removed_at<C>(before: JobState<C>, after: JobState<C>, k: int) -> bool {
    &&& 0 <= k < before.entries@.len()
    &&& after.entries@.len() == before.entries@.len() - 1
    &&& forall|i: int| 0 <= i < k ==> after.entries@[i] == before.entries@[i]
    &&& forall|i: int| k <= i < after.entries@.len() ==> after.entries@[i] == before.entries@[i + 1]
}

proof fn lemma_removed_wf<C>(before: JobState<C>, after: JobState<C>, k: int)
    requires
        before.wf(),
        removed_at(before, after, k),
    ensures
        after.wf(),
{
    assert forall|i: int, j: int|
        #![trigger after.entries@[i], after.entries@[j]]
        0 <= i < j < after.entries@.len() implies after.entries@[i].0@ != after.entries@[j].0@ by {
        let a = if i < k {
            i
        } else {
            i + 1
        };
        let b = if j < k {
            j
        } else {
            j + 1
        };
        assert(before.entries@[a].0@ != before.entries@[b].0@);
    }
}

proof fn lemma_removed<C>(
    before: JobState<C>,
    after: JobState<C>,
    k: int,
    gone: Seq<char>,
    id: Seq<char>,
)
    requires
        before.wf(),
        after.wf(),
        removed_at(before, after, k),
        before.holds(k, gone),
    ensures
        after@.contains_key(id) <==> before@.contains_key(id) && id != gone,
        after@.contains_key(id) ==> after@[id] == before@[id],
{
    before.lemma_position(k, gone);
    if after@.contains_key(id) {
        let i = after.position(id);
        assert(after.holds(i, id));
        let a = if i < k {
            i
        } else {
            i + 1
        };
        assert(before.holds(a, id));
        before.lemma_position(a, id);
        after.lemma_position(i, id);
    }
    if before@.contains_key(id) && id != gone {
        let a = before.position(id);
        assert(before.holds(a, id));
        let i = if a < k {
            a
        } else {
            a - 1
        };
        assert(after.entries@[i] == before.entries@[a]);
        assert(after.holds(i, id));
    }
}

// Cancelling.

/// The directories of a job: the one to work in, then the one for the tiles.
pub open spec fn job_dirs(job: JobControl) -> Seq<Seq<char>> {
    let first = match job.working_dir {
        Some(dir) => seq![dir@],
        None => Seq::empty(),
    };
    match job.output_dir {
        Some(dir) => first.push(dir@),
        None => first,
    }
}

/// The directories of a job: the one to work in, then the one for the tiles.
pub fn directories_of(job: &JobControl) -> (r: Vec<String>)
    ensures
        texts(r@) == job_dirs(*job),
{
    let mut dirs: Vec<String> = Vec::new();
    assert(texts(dirs@) =~= Seq::<Seq<char>>::empty());
    if let Some(dir) = &job.working_dir {
        push_text(&mut dirs, dir.as_str());
        assert(texts(dirs@) =~= seq![dir@]);
    }
    if let Some(dir) = &job.output_dir {
        push_text(&mut dirs, dir.as_str());
    }
    dirs
}

/// What is known of a cancelling so far.
#[derive(Debug)]
pub struct CancelFacts {
    /// Whether the job is among those under way.
    pub found: Option<Result<bool, String>>,
    /// The control of the job, which is now marked as cancelled.
    pub marked: Option<Result<JobControl, String>>,
    /// What came of killing its process.
    pub killed: Option<Result<(), String>>,
    /// What came of removing its directories.
    pub removed: Vec<Result<(), String>>,
    /// Whether the job is no longer among those under way.
    pub unregistered: Option<Result<(), String>>,
}

impl CancelFacts {
    /// Nothing is known yet.
    pub open spec fn fresh(self) -> bool {
        &&& self.found is None
        &&& self.marked is None
        &&& self.killed is None
        &&& self.removed@.len() == 0
        &&& self.unregistered is None
    }
}

impl Default for CancelFacts {
    fn default() -> (r: Self)
        ensures
            r.fresh(),
    {
        CancelFacts {
            found: None,
            marked: None,
            killed: None,
            removed: Vec::new(),
            unregistered: None,
        }
    }
}

/// What is to be done next to cancel a job.
#[derive(Debug)]
pub enum CancelStep {
    /// Look for the job with this identifier among those under way.
    Find(String),
    /// Mark the job as cancelled.
    Mark,
    /// Kill this process.
    Kill(u32),
    /// Remove this directory.
    RemoveDir(String),
    /// Take the job with this identifier out of those under way.
    Unregister(String),
    /// Answer whether there was a job to cancel.
    Done(Result<bool, String>),
}

/// The content of a [`CancelStep`].
pub ghost enum CancelStepView {
    Find(Seq<char>),
    Mark,
    Kill(u32),
    RemoveDir(Seq<char>),
    Unregister(Seq<char>),
    Done(Result<bool, Seq<char>>),
}

impl View for CancelStep {
    type V = CancelStepView;

    open spec fn view(&self) -> CancelStepView {
        match *self {
            CancelStep::Find(id) => CancelStepView::Find(id@),
            CancelStep::Mark => CancelStepView::Mark,
            CancelStep::Kill(pid) => CancelStepView::Kill(pid),
            CancelStep::RemoveDir(dir) => CancelStepView::RemoveDir(dir@),
            CancelStep::Unregister(id) => CancelStepView::Unregister(id@),
            CancelStep::Done(Ok(found)) => CancelStepView::Done(Ok(found)),
            CancelStep::Done(Err(e)) => CancelStepView::Done(Err(e@)),
        }
    }
}

/// The course of cancelling a job that was found and marked: its process is killed, its directories
/// are removed, and it is taken out of those under way. It does not matter what comes of killing and
/// removing.
pub open spec fn marked_step(
    job_id: Seq<char>,
    job: JobControl,
    facts: CancelFacts,
) -> CancelStepView {
    if job.current_pid is Some && facts.killed is None {
        CancelStepView::Kill(job.current_pid->Some_0)
    } else if facts.removed@.len() < job_dirs(job).len() {
        CancelStepView::RemoveDir(job_dirs(job)[facts.removed@.len() as int])
    } else {
        match facts.unregistered {
            None => CancelStepView::Unregister(job_id),
            Some(Err(e)) => CancelStepView::Done(Err(e@)),
            Some(Ok(_)) => CancelStepView::Done(Ok(true)),
        }
    }
}

/// The course of cancelling a job. Where it is not under way nothing is done, and the answer is that
/// there was none to cancel. Else it is marked first, so that it ends whatever becomes of the rest.
pub open spec fn cancel_step(job_id: Seq<char>, facts: CancelFacts) -> CancelStepView {
    match facts.found {
        None => CancelStepView::Find(job_id),
        Some(Err(e)) => CancelStepView::Done(Err(e@)),
        Some(Ok(false)) => CancelStepView::Done(Ok(false)),
        Some(Ok(true)) => match facts.marked {
            None => CancelStepView::Mark,
            Some(Err(e)) => CancelStepView::Done(Err(e@)),
            Some(Ok(job)) => marked_step(job_id, job, facts),
        },
    }
}

fn next_marked(job_id: &str, job: &JobControl, facts: &CancelFacts) -> (r: CancelStep)
    ensures
        r@ == marked_step(job_id@, *job, *facts),
{
    if let Some(pid) = job.current_pid {
        if facts.killed.is_none() {
            return CancelStep::Kill(pid);
        }
    }
    let dirs = directories_of(job);
    let removed = facts.removed.len();
    if removed < dirs.len() {
        assert(texts(dirs@)[removed as int] == dirs@[removed as int]@);
        return CancelStep::RemoveDir(dirs[removed].clone());
    }
    match &facts.unregistered {
        None => CancelStep::Unregister(job_id.to_string()),
        Some(Err(e)) => CancelStep::Done(Err(e.clone())),
        Some(Ok(_)) => CancelStep::Done(Ok(true)),
    }
}

/// What is to be done next to cancel a job, given what is known of that.
pub fn cancel_job(job_id: &str, facts: &CancelFacts) -> (r: CancelStep)
    ensures
        r@ == cancel_step(job_id@, *facts),
{
    match &facts.found {
        None => CancelStep::Find(job_id.to_string()),
        Some(Err(e)) => CancelStep::Done(Err(e.clone())),
        Some(Ok(found)) => {
            if !*found {
                return CancelStep::Done(Ok(false));
            }
            match &facts.marked {
                None => CancelStep::Mark,
                Some(Err(e)) => CancelStep::Done(Err(e.clone())),
                Some(Ok(job)) => next_marked(job_id, job, facts),
            }
        },
    }
}

// What cancelling does.

/// The world that a cancelling works in: the table of the jobs under way, the controls behind its
/// handles, the processes and the directories that it was tried to kill and to remove, and what is
/// known of the cancelling.
#[verifier::reject_recursive_types(C)]
pub ghost struct CancelWorld<C> {
    pub jobs: Map<Seq<char>, C>,
    pub controls: Map<C, JobControl>,
    pub kills: Seq<u32>,
    pub removals: Seq<Seq<char>>,
    pub facts: CancelFacts,
}

/// The control of a job that is marked as cancelled.
pub open spec fn cancelled(job: JobControl) -> JobControl {
    JobControl { cancelled: true, ..job }
}

/// The second world is the first after the next step of cancelling a job, in which no lock is broken.
/// Killing and removing may come out as they will.
pub open spec fn cancel_turn<C>(job_id: Seq<char>, a: CancelWorld<C>, b: CancelWorld<C>) -> bool {
    match cancel_step(job_id, a.facts) {
        CancelStepView::Find(id) => b == (CancelWorld {
            facts: CancelFacts { found: Some(Ok(a.jobs.contains_key(id))), ..a.facts },
            ..a
        }),
        CancelStepView::Mark => {
            let job = cancelled(a.controls[a.jobs[job_id]]);
            b == (CancelWorld {
                controls: a.controls.insert(a.jobs[job_id], job),
                facts: CancelFacts { marked: Some(Ok(job)), ..a.facts },
                ..a
            })
        },
        CancelStepView::Kill(pid) => b.facts.killed is Some && b == (CancelWorld {
            kills: a.kills.push(pid),
            facts: CancelFacts { killed: b.facts.killed, ..a.facts },
            ..a
        }),
        CancelStepView::RemoveDir(dir) => b.facts.removed@.len() == a.facts.removed@.len() + 1 && b
            == (CancelWorld {
            removals: a.removals.push(dir),
            facts: CancelFacts { removed: b.facts.removed, ..a.facts },
            ..a
        }),
        CancelStepView::Unregister(id) => b == (CancelWorld {
            jobs: a.jobs.remove(id),
            facts: CancelFacts { unregistered: Some(Ok(())), ..a.facts },
            ..a
        }),
        CancelStepView::Done(_) => false,
    }
}

/// The worlds are those of one cancelling, from its begin to its answer, while nobody else touches
/// the jobs.
pub open spec fn is_cancelling<C>(job_id: Seq<char>, run: Seq<CancelWorld<C>>) -> bool {
    &&& run.len() > 0
    &&& run[0].facts.fresh()
    &&& forall|i: int|
        0 <= i < run.len() - 1 ==> cancel_turn(job_id, #[trigger] run[i], run[i + 1])
    &&& cancel_step(job_id, run.last().facts) is Done
}

/// The processes that cancelling a job tries to kill.
pub open spec fn job_kills(job: JobControl) -> Seq<u32> {
    match job.current_pid {
        Some(pid) => seq![pid],
        None => Seq::empty(),
    }
}

/// How far a cancelling has come that has found its job.
spec fn come_so_far<C>(job_id: Seq<char>, a: CancelWorld<C>, w: CancelWorld<C>) -> bool {
    let handle = a.jobs[job_id];
    let job = cancelled(a.controls[handle]);
    let f = w.facts;
    match f.found {
        None => w == a && f.fresh(),
        Some(found) => {
            &&& found == Ok::<bool, String>(true)
            &&& match f.marked {
                None => w.jobs == a.jobs && w.controls == a.controls && w.kills == a.kills
                    && w.removals == a.removals && f.killed is None && f.removed@.len() == 0
                    && f.unregistered is None,
                Some(marked) => {
                    &&& marked == Ok::<JobControl, String>(job)
                    &&& w.controls == a.controls.insert(handle, job)
                    &&& w.kills == if f.killed is Some {
                        a.kills + job_kills(job)
                    } else {
                        a.kills
                    }
                    &&& f.killed is Some ==> job.current_pid is Some
                    &&& f.removed@.len() <= job_dirs(job).len()
                    &&& w.removals == a.removals + job_dirs(job).take(f.removed@.len() as int)
                    &&& f.removed@.len() > 0 || f.unregistered is Some ==> (job.current_pid is Some
                        ==> f.killed is Some)
                    &&& match f.unregistered {
                        None => w.jobs == a.jobs,
                        Some(r) => r is Ok && w.jobs == a.jobs.remove(job_id) && f.removed@.len()
                            == job_dirs(job).len(),
                    }
                },
            }
        },
    }
}

proof fn lemma_turn<C>(
    job_id: Seq<char>,
    a: CancelWorld<C>,
    w: CancelWorld<C>,
    next: CancelWorld<C>,
)
    requires
        a.jobs.contains_key(job_id),
        come_so_far(job_id, a, w),
        cancel_turn(job_id, w, next),
    ensures
        come_so_far(job_id, a, next),
{
    let job = cancelled(a.controls[a.jobs[job_id]]);
    let dirs = job_dirs(job);
    let n = w.facts.removed@.len() as int;
    match cancel_step(job_id, w.facts) {
        CancelStepView::Mark => {
            assert(next.removals =~= a.removals + dirs.take(0));
        },
        CancelStepView::Kill(pid) => {
            assert(next.kills =~= a.kills + job_kills(job));
        },
        CancelStepView::RemoveDir(dir) => {
            assert(dirs.take(n + 1) =~= dirs.take(n).push(dir));
            assert(next.removals =~= a.removals + dirs.take(n + 1));
        },
        _ => {},
    }
}

proof fn lemma_run<C>(job_id: Seq<char>, run: Seq<CancelWorld<C>>, i: int)
    requires
        is_cancelling(job_id, run),
        run[0].jobs.contains_key(job_id),
        0 <= i < run.len(),
    ensures
        come_so_far(job_id, run[0], run[i]),
    decreases i,
{
    if i > 0 {
        lemma_run(job_id, run, i - 1);
        assert(cancel_turn(job_id, run[i - 1], run[i - 1 + 1]));
        lemma_turn(job_id, run[0], run[i - 1], run[i]);
    }
}

/// Cancelling a job that is under way marks it, tries to kill its process and to remove its
/// directories, takes it out of those under way, leaves the other jobs as they are, and answers that
/// there was one, whatever comes of killing and removing.
pub proof fn cancelling_ends_a_job<C>(job_id: Seq<char>, run: Seq<CancelWorld<C>>)
    requires
        is_cancelling(job_id, run),
        run[0].jobs.contains_key(job_id),
    ensures
        cancel_step(job_id, run.last().facts) == CancelStepView::Done(Ok(true)),
        run.last().jobs == run[0].jobs.remove(job_id),
        ({
            let handle = run[0].jobs[job_id];
            let job = run[0].controls[handle];
            &&& run.last().controls == run[0].controls.insert(handle, cancelled(job))
            &&& run.last().kills == run[0].kills + job_kills(job)
            &&& run.last().removals == run[0].removals + job_dirs(job)
        }),
{
    let last = run.len() - 1;
    lemma_run(job_id, run, last);
    let job = cancelled(run[0].controls[run[0].jobs[job_id]]);
    assert(job_dirs(job).take(job_dirs(job).len() as int) =~= job_dirs(job));
    assert(run[0].kills + Seq::<u32>::empty() =~= run[0].kills);
}

/// Cancelling a job that is not under way changes nothing and answers that there was none.
pub proof fn cancelling_nothing_changes_nothing<C>(job_id: Seq<char>, run: Seq<CancelWorld<C>>)
    requires
        is_cancelling(job_id, run),
        !run[0].jobs.contains_key(job_id),
    ensures
        cancel_step(job_id, run.last().facts) == CancelStepView::Done(Ok(false)),
        run.last() == (CancelWorld { facts: run.last().facts, ..run[0] }),
{
    assert(run.len() > 1);
    assert(cancel_turn(job_id, run[0], run[0int + 1]));
    assert(cancel_step(job_id, run[1].facts) is Done);
    if run.len() > 2 {
        assert(cancel_turn(job_id, run[1], run[1int + 1]));
    }
}

/// A job is cancelled once: the first cancelling answers that there was a job and the second that
/// there was none, the job stays marked, and it is tried only once to kill its process and to remove
/// its directories.
pub proof fn cancelling_twice_is_cancelling_once<C>(
    job_id: Seq<char>,
    first: Seq<CancelWorld<C>>,
    second: Seq<CancelWorld<C>>,
)
    requires
        is_cancelling(job_id, first),
        is_cancelling(job_id, second),
        first[0].jobs.contains_key(job_id),
        second[0] == (CancelWorld { facts: second[0].facts, ..first.last() }),
    ensures
        cancel_step(job_id, first.last().facts) == CancelStepView::Done(Ok(true)),
        cancel_step(job_id, second.last().facts) == CancelStepView::Done(Ok(false)),
        second.last().jobs == first[0].jobs.remove(job_id),
        second.last().controls[first[0].jobs[job_id]].cancelled,
        second.last() == (CancelWorld { facts: second.last().facts, ..first.last() }),
{
    cancelling_ends_a_job(job_id, first);
    cancelling_nothing_changes_nothing(job_id, second);
}

/// How many steps a cancelling has before it at most.
pub open spec fn cancel_steps_left(facts: CancelFacts) -> int {
    (if facts.found is None {
        1int
    } else {
        0
    }) + (if facts.killed is None {
        1int
    } else {
        0
    }) + (if facts.unregistered is None {
        1int
    } else {
        0
    }) + match facts.marked {
        None => 3int,
        Some(Ok(job)) => if facts.removed@.len() < job_dirs(job).len() {
            job_dirs(job).len() - facts.removed@.len()
        } else {
            0
        },
        Some(Err(_)) => 0,
    }
}

/// A cancelling answers after six steps at most.
pub proof fn cancelling_is_over_in_six_steps<C>(
    job_id: Seq<char>,
    a: CancelWorld<C>,
    b: CancelWorld<C>,
)
    requires
        cancel_turn(job_id, a, b),
    ensures
        0 <= cancel_steps_left(b.facts) < cancel_steps_left(a.facts) <= 6,
{
}

/// A job that was under way and is taken out leaves the others as they were, and its identifier is
/// free again.
pub proof fn identifier_is_free_again<C>(jobs: Map<Seq<char>, C>, job_id: Seq<char>, control: C)
    requires
        !jobs.contains_key(job_id),
    ensures
        jobs.insert(job_id, control).remove(job_id) == jobs,
        !jobs.insert(job_id, control).remove(job_id).contains_key(job_id),
{
    assert(jobs.insert(job_id, control).remove(job_id) =~= jobs);
}

/// The program that kills a process on this platform, and its arguments.
pub fn kill_command(pid: u32, windows: bool) -> (r: (String, Vec<String>))
    ensures
        r.0@ == if windows {
            "taskkill"@
        } else {
            "kill"@
        },
        texts(r.1@) == if windows {
            seq!["/PID"@, decimal(pid as nat), "/T"@, "/F"@]
        } else {
            seq!["-9"@, decimal(pid as nat)]
        },
{
    let number = decimal_text(pid as u128);
    let mut args: Vec<String> = Vec::new();
    if windows {
        push_text(&mut args, "/PID");
        push_text(&mut args, number.as_str());
        push_text(&mut args, "/T");
        push_text(&mut args, "/F");
        assert(texts(args@) =~= seq!["/PID"@, number@, "/T"@, "/F"@]);
        ("taskkill".to_string(), args)
    } else {
        push_text(&mut args, "-9");
        push_text(&mut args, number.as_str());
        assert(texts(args@) =~= seq!["-9"@, number@]);
        ("kill".to_string(), args)
    }
}

/// Whether a process was killed: `outcome` tells whether the program that kills succeeded, or why
/// it could not be started.
pub fn kill_process(outcome: &Result<bool, String>, windows: bool) -> (r: Result<(), String>)
    ensures
        match *outcome {
            Err(e) => r is Err && r->Err_0@ == "终止进程失败: "@ + e@,
            Ok(true) => r is Ok,
            Ok(false) => r is Err && r->Err_0@ == if windows {
                "taskkill 返回失败"@
            } else {
                "kill 返回失败"@
            },
        },
{
    match outcome {
        Err(e) => Err(concat2("终止进程失败: ", e.as_str())),
        Ok(success) => {
            if *success {
                Ok(())
            } else if windows {
                Err("taskkill 返回失败".to_string())
            } else {
                Err("kill 返回失败".to_string())
            }
        },
    }
}

/// Cancelling a job removes its working directory wherever it has one and its output directory
/// wherever it has one, each whether or not there is the other, the working directory first, and
/// nothing else. It kills the process of the job wherever one runs, and nothing else.
pub proof fn cancelling_clears_what_the_job_has<C>(job_id: Seq<char>, run: Seq<CancelWorld<C>>)
    requires
        is_cancelling(job_id, run),
        run[0].jobs.contains_key(job_id),
        run[0].removals.len() == 0,
        run[0].kills.len() == 0,
    ensures
        ({
            let job = run[0].controls[run[0].jobs[job_id]];
            let removals = run.last().removals;
            let kills = run.last().kills;
            &&& job.working_dir matches Some(dir) ==> removals.contains(dir@)
            &&& job.output_dir matches Some(dir) ==> removals.contains(dir@)
            &&& forall|dir: Seq<char>| #[trigger]
                removals.contains(dir) ==> (job.working_dir matches Some(d) && d@ == dir) || (
                job.output_dir matches Some(d) && d@ == dir)
            &&& removals.len() == (if job.working_dir is Some {
                1int
            } else {
                0
            }) + (if job.output_dir is Some {
                1int
            } else {
                0
            })
            &&& job.working_dir matches Some(dir) ==> removals[0] == dir@
            &&& job.output_dir matches Some(dir) ==> removals.last() == dir@
            &&& job.current_pid matches Some(pid) ==> kills == seq![pid]
            &&& job.current_pid is None ==> kills.len() == 0
        }),
{
    cancelling_ends_a_job(job_id, run);
    let job = run[0].controls[run[0].jobs[job_id]];
    let removals = run.last().removals;
    assert(removals =~= job_dirs(job));
    assert(run.last().kills =~= job_kills(job));
    if let Some(dir) = job.working_dir {
        assert(removals[0] == dir@);
    }
    if let Some(dir) = job.output_dir {
        assert(removals[removals.len() - 1] == dir@);
    }
}

/// Cancelling begins with the mark, so that the job ends whatever becomes of the rest: nothing is
/// killed, removed or taken out before. A job that is not found is left alone.
pub proof fn cancelling_marks_first(job_id: Seq<char>, facts: CancelFacts)
    ensures
        facts.found is None ==> cancel_step(job_id, facts) == CancelStepView::Find(job_id),
        (facts.found matches Some(Ok(true))) && facts.marked is None ==> cancel_step(job_id, facts)
            == CancelStepView::Mark,
        facts.found matches Some(Ok(false)) ==> cancel_step(job_id, facts) == CancelStepView::Done(
            Ok(false),
        ),
        cancel_step(job_id, facts) is Kill || cancel_step(job_id, facts) is RemoveDir
            || cancel_step(job_id, facts) is Unregister ==> (facts.found matches Some(Ok(true)))
            && (facts.marked matches Some(Ok(_))),
        cancel_step(job_id, facts) matches CancelStepView::Unregister(id) ==> id == job_id,
        facts.found matches Some(Err(e)) ==> cancel_step(job_id, facts) == CancelStepView::Done(
            Err(e@),
        ),
{
}

/// The control of a new job is not cancelled, has no process yet, and has the directories of the job.
pub proof fn new_jobs_are_under_way(req: TileJobRequest, output_dir: &str, r: JobControl)
    requires
        call_ensures(JobControl::for_request, (&req, output_dir), r),
    ensures
        !r.cancelled,
        r.current_pid is None,
        r.output_dir matches Some(dir) && dir@ == output_dir@,
        req.working_dir matches Some(w) ==> (r.working_dir matches Some(dir) && dir@ == w@),
        req.working_dir is None ==> r.working_dir is None,
{
}

/// A process is killed by its number, with all that it has started, and without asking it.
pub proof fn processes_are_killed_by_number(pid: u32, windows: bool, r: (String, Vec<String>))
    requires
        call_ensures(kill_command, (pid, windows), r),
    ensures
        windows ==> r.0@ == "taskkill"@ && texts(r.1@) == seq![
            "/PID"@,
            decimal(pid as nat),
            "/T"@,
            "/F"@,
        ],
        !windows ==> r.0@ == "kill"@ && texts(r.1@) == seq!["-9"@, decimal(pid as nat)],
{
}

/// A process counts as killed exactly where the program that kills has succeeded.
pub proof fn killing_succeeds_with_its_program(
    outcome: Result<bool, String>,
    windows: bool,
    r: Result<(), String>,
)
    requires
        call_ensures(kill_process, (&outcome, windows), r),
    ensures
        r is Ok <==> outcome matches Ok(true),
        outcome matches Err(e) ==> (r matches Err(t) && t@ == "终止进程失败: "@ + e@),
        (outcome matches Ok(false)) && windows ==> (r matches Err(t) && t@
            == "taskkill 返回失败"@),
        (outcome matches Ok(false)) && !windows ==> (r matches Err(t) && t@ == "kill 返回失败"@),
{
}

/// A lock that is broken ends a cancelling with its error, whether it is that of the job or that of
/// the table; what came of killing and removing is never the answer.
pub proof fn broken_locks_end_a_cancelling(job_id: Seq<char>, facts: CancelFacts, err: String)
    requires
        facts.found matches Some(Ok(true)),
    ensures
        facts.marked == Some(Err::<JobControl, String>(err)) ==> cancel_step(job_id, facts)
            == CancelStepView::Done(Err(err@)),
        facts.marked matches Some(Ok(job)) ==> (cancel_step(job_id, facts) matches CancelStepView::Done(
            answer,
        ) ==> match facts.unregistered {
            Some(Ok(_)) => answer == Ok::<bool, Seq<char>>(true),
            Some(Err(e)) => answer == Err::<bool, Seq<char>>(e@),
            None => false,
        }),
{
}

/// What a cancelling kills and removes belongs to the job that it has marked. It kills before it
/// removes, and the working directory goes before the output directory.
pub proof fn cancelling_touches_only_its_job(job_id: &str, facts: CancelFacts, r: CancelStep)
    requires
        call_ensures(cancel_job, (job_id, &facts), r),
    ensures
        r matches CancelStep::Kill(pid) ==> (facts.marked matches Some(Ok(job)) && job.current_pid
            == Some(pid)),
        r matches CancelStep::RemoveDir(dir) ==> (facts.marked matches Some(Ok(job)) && ((
        job.working_dir matches Some(d) && d@ == dir@) || (job.output_dir matches Some(d) && d@
            == dir@)) && (job.current_pid is Some ==> facts.killed is Some) && (facts.removed@.len()
            == 0 ==> (job.working_dir matches Some(d) ==> d@ == dir@))),
        r matches CancelStep::Unregister(id) ==> id@ == job_id@ && (facts.marked matches Some(
            Ok(job),
        ) && (job.current_pid is Some ==> facts.killed is Some) && (job.output_dir is Some
            ==> facts.removed@.len() > 0) && (job.working_dir is Some ==> facts.removed@.len() > 0)),
        r matches CancelStep::Find(id) ==> id@ == job_id@,
{
}

/// An identifier is taken exactly where no job under way has it. The job that takes it is then found
/// under it, every other job stays as it was, and a refused one changes nothing.
pub proof fn identifiers_are_taken_once<C>(
    jobs: &mut JobState<C>,
    job_id: &str,
    control: C,
    r: Result<(), String>,
    other: Seq<char>,
)
    requires
        call_ensures(JobState::<C>::register, (jobs, job_id, control), r),
    ensures
        r is Ok <==> !old(jobs)@.contains_key(job_id@),
        r is Ok ==> final(jobs)@.contains_key(job_id@) && final(jobs)@[job_id@] == control,
        other != job_id@ ==> (final(jobs)@.contains_key(other) <==> old(jobs)@.contains_key(other)) && (
        old(jobs)@.contains_key(other) ==> final(jobs)@[other] == old(jobs)@[other]),
        r matches Err(e) ==> final(jobs)@ == old(jobs)@ && e@ == "任务ID已存在: "@ + job_id@,
{
}

/// A job that is taken out is found no longer, and every other job stays as it was.
pub proof fn jobs_are_taken_out_alone<C>(
    jobs: &mut JobState<C>,
    job_id: &str,
    r: (),
    other: Seq<char>,
)
    requires
        call_ensures(JobState::<C>::remove, (jobs, job_id), r),
    ensures
        !final(jobs)@.contains_key(job_id@),
        other != job_id@ ==> (final(jobs)@.contains_key(other) <==> old(jobs)@.contains_key(other)) && (
        old(jobs)@.contains_key(other) ==> final(jobs)@[other] == old(jobs)@[other]),
{
}

/// The mark of a cancelled job is set and never taken back by what happens to its process; neither
/// changes its directories.
pub proof fn marks_stay(control: &mut JobControl, pid: Option<u32>, r: ())
    ensures
        call_ensures(JobControl::cancel, (control,), r) ==> final(control).cancelled
            && final(control).current_pid == old(control).current_pid && final(control).working_dir
            == old(control).working_dir && final(control).output_dir == old(control).output_dir,
        call_ensures(JobControl::set_pid, (control, pid), r) ==> final(control).current_pid == pid
            && final(control).cancelled == old(control).cancelled && final(control).working_dir
            == old(control).working_dir && final(control).output_dir == old(control).output_dir,
{
}

} // verus!
