//! A tiling job from its request to its result: what is done in which order, and what ends it.

use crate::oss_batch::files_between_stages_are_not_sent;
use crate::oss_batch::upload_planned;
use crate::oss_batch::OssUploadSummary;
use crate::oss_batch::SummaryView;
use crate::oss_batch::UploadPlan;
use crate::oss_upload::OssEnvironment;
use crate::oss_upload::OssUploadConfig;
use crate::progress_event::event;
use crate::progress_event::EventView;
use crate::progress_event::ProgressEvent;
use crate::stage_run::emit_error;
use crate::stage_run::emit_failure;
use crate::text::concat2;
use crate::text::concat3;
use crate::text::concat4;
use crate::text::copy_texts;
use crate::text::opt_text;
use crate::text::push_text;
use crate::text::texts;
use crate::text::trim;
use crate::text::trimmed;
use crate::tile_stages::directory_failure;
use crate::tile_stages::PathsView;
use crate::tile_stages::request_fault;
use crate::tile_stages::staged;
use crate::tile_stages::tiles_are_cut_as_requested;
use crate::tile_stages::validate_request;
use crate::tile_stages::PlanView;
use crate::tile_stages::StagePlan;
use crate::tile_stages::TileJobRequest;
use crate::tile_stages::TileOutputFormat;
use crate::tile_upload::copy_summary;
use crate::tile_upload::outcome_view;
use crate::tile_upload::upload_wanted;
use vstd::prelude::*;

verus! {

/// What a job has brought about.
#[derive(Debug, Clone)]
pub struct TileJobResult {
    pub job_id: String,
    pub output_dir: String,
    pub tile_template: String,
    pub generated_intermediate_files: Vec<String>,
    pub upload_summary: Option<OssUploadSummary>,
}

/// The content of a [`TileJobResult`].
pub ghost struct JobResultView {
    pub job_id: Seq<char>,
    pub output_dir: Seq<char>,
    pub tile_template: Seq<char>,
    pub generated_intermediate_files: Seq<Seq<char>>,
    pub upload_summary: Option<SummaryView>,
}

/// The content of an optional summary.
pub open spec fn opt_summary(o: Option<OssUploadSummary>) -> Option<SummaryView> {
    match o {
        Some(s) => Some(s@),
        None => None,
    }
}

impl View for TileJobResult {
    type V = JobResultView;

    open spec fn view(&self) -> JobResultView {
        JobResultView {
            job_id: self.job_id@,
            output_dir: self.output_dir@,
            tile_template: self.tile_template@,
            generated_intermediate_files: texts(self.generated_intermediate_files@),
            upload_summary: opt_summary(self.upload_summary),
        }
    }
}

/// What is known of a job so far. Each field but the lists is empty until the step that it is about
/// has been taken.
#[derive(Debug)]
pub struct JobFacts {
    /// The directory that was made for the tiles of a request that names none, or the path of one
    /// that could not be made with the error.
    pub allocated: Option<Result<String, (String, String)>>,
    /// Whether the image exists.
    pub input_exists: Option<bool>,
    /// Whether the output directory could be made.
    pub output_made: Option<Result<(), String>>,
    /// Whether the job is among those under way.
    pub registered: Option<Result<(), String>>,
    /// Whether the begin was reported.
    pub announced: Option<Result<(), String>>,
    /// The stages.
    pub planned: Option<Result<StagePlan, String>>,
    /// What came of the stages that have run.
    pub stages: Vec<Result<(), String>>,
    /// What came of clearing away the files between the stages.
    pub removed: Vec<Result<(), String>>,
    /// What came of the upload.
    pub uploaded: Option<Result<Option<OssUploadSummary>, String>>,
    /// Whether the job is no longer among those under way.
    pub unregistered: Option<Result<(), String>>,
    /// What came of clearing away the tiles.
    pub output_removed: Option<Result<(), String>>,
    /// Whether the end was reported.
    pub reported: Option<Result<(), String>>,
}

/// What is to be done next for a job.
#[derive(Debug)]
pub enum JobStep {
    /// Make a fresh directory for the tiles.
    AllocateDir,
    /// See whether this image exists.
    CheckInput(String),
    /// Make this directory.
    MakeDir(String),
    /// Take the job among those under way, with this output directory.
    Register(String),
    /// Report the begin.
    Announce(ProgressEvent),
    /// Find the stages.
    Plan,
    /// Run the stage at this place.
    RunStage(usize),
    /// Remove this file, and report where that fails.
    Remove(String),
    /// Upload the tiles, where the request asks for it, without these files between the stages.
    Upload(Vec<String>),
    /// Take the job out of those under way.
    Unregister,
    /// Remove the directory of the tiles, and report what came of that.
    RemoveOutput(String),
    /// Report the end.
    Report(ProgressEvent),
    Finish(Result<TileJobResult, String>),
}

/// The content of a [`JobStep`].
pub ghost enum JobStepView {
    AllocateDir,
    CheckInput(Seq<char>),
    MakeDir(Seq<char>),
    Register(Seq<char>),
    Announce(EventView),
    Plan,
    RunStage(int),
    Remove(Seq<char>),
    Upload(Seq<Seq<char>>),
    Unregister,
    RemoveOutput(Seq<char>),
    Report(EventView),
    Finish(Result<JobResultView, Seq<char>>),
}

impl View for JobStep {
    type V = JobStepView;

    open spec fn view(&self) -> JobStepView {
        match *self {
            JobStep::AllocateDir => JobStepView::AllocateDir,
            JobStep::CheckInput(path) => JobStepView::CheckInput(path@),
            JobStep::MakeDir(dir) => JobStepView::MakeDir(dir@),
            JobStep::Register(dir) => JobStepView::Register(dir@),
            JobStep::Announce(e) => JobStepView::Announce(e@),
            JobStep::Plan => JobStepView::Plan,
            JobStep::RunStage(i) => JobStepView::RunStage(i as int),
            JobStep::Remove(path) => JobStepView::Remove(path@),
            JobStep::Upload(between) => JobStepView::Upload(texts(between@)),
            JobStep::Unregister => JobStepView::Unregister,
            JobStep::RemoveOutput(dir) => JobStepView::RemoveOutput(dir@),
            JobStep::Report(e) => JobStepView::Report(e@),
            JobStep::Finish(Ok(r)) => JobStepView::Finish(Ok(r@)),
            JobStep::Finish(Err(e)) => JobStepView::Finish(Err(e@)),
        }
    }
}

// Clearing away.

/// The report of a file between stages that could not be removed.
pub open spec fn retained_event(job_id: Seq<char>, path: Seq<char>, err: Seq<char>) -> EventView {
    event(
        job_id,
        "cleanup_intermediates"@,
        "warn"@,
        "中间文件清理失败，已保留: "@ + path + "; "@ + err,
        100,
    )
}

/// What is to be reported of a file between stages that was to be removed: nothing where it was.
pub fn cleanup_intermediate(job_id: &str, path: &str, outcome: &Result<(), String>) -> (r: Option<
    ProgressEvent,
>)
    ensures
        match *outcome {
            Ok(_) => r is None,
            Err(e) => r is Some && r->Some_0@ == retained_event(job_id@, path@, e@),
        },
{
    match outcome {
        Ok(_) => None,
        Err(e) => {
            let message = concat4("中间文件清理失败，已保留: ", path, "; ", e.as_str());
            Some(ProgressEvent::new(job_id, "cleanup_intermediates", "warn", message.as_str(), 100))
        },
    }
}

/// The files that could not be removed, given what came of each that was to be removed so far.
pub open spec fn retained(paths: Seq<Seq<char>>, outcomes: Seq<Result<(), String>>) -> Seq<Seq<char>>
    decreases paths.len(),
{
    let tried = if paths.len() < outcomes.len() {
        paths.len() as int
    } else {
        outcomes.len() as int
    };
    if tried == 0 {
        Seq::empty()
    } else {
        let before = retained(paths.take(tried - 1), outcomes.take(tried - 1));
        if outcomes[tried - 1] is Err {
            before.push(paths[tried - 1])
        } else {
            before
        }
    }
}

/// The files that could not be removed, given what came of each that was to be removed so far.
pub fn cleanup_intermediates(paths: &Vec<String>, outcomes: &Vec<Result<(), String>>) -> (r: Vec<
    String,
>)
    ensures
        texts(r@) == retained(texts(paths@), outcomes@),
{
    let mut out: Vec<String> = Vec::new();
    let ghost all = texts(paths@);
    let mut i: usize = 0;
    assert(texts(out@) =~= retained(all.take(0), outcomes@.take(0)));
    while i < paths.len() && i < outcomes.len()
        invariant
            i <= paths@.len(),
            i <= outcomes@.len(),
            all == texts(paths@),
            texts(out@) == retained(all.take(i as int), outcomes@.take(i as int)),
        decreases paths@.len() - i,
    {
        proof {
            assert(all.take(i + 1).take(i as int) =~= all.take(i as int));
            assert(outcomes@.take(i + 1).take(i as int) =~= outcomes@.take(i as int));
            assert(all.take(i + 1)[i as int] == all[i as int]);
        }
        if outcomes[i].is_err() {
            push_text(&mut out, paths[i].as_str());
        }
        i += 1;
    }
    proof {
        let n = i as int;
        if n > 0 {
            assert(all.take(n).take(n - 1) =~= all.take(n - 1));
            assert(outcomes@.take(n).take(n - 1) =~= outcomes@.take(n - 1));
        }
    }
    out
}

/// The report of the tiles that were cleared away after they were sent, or could not be.
pub open spec fn output_cleanup_event(
    job_id: Seq<char>,
    dir: Seq<char>,
    outcome: Result<(), String>,
) -> EventView {
    match outcome {
        Ok(_) => event(
            job_id,
            "cleanup_output"@,
            "info"@,
            "上传完成，已删除本地临时瓦片目录: "@ + dir,
            100,
        ),
        Err(e) => event(
            job_id,
            "cleanup_output"@,
            "warn"@,
            "本地临时瓦片目录清理失败，已保留: "@ + dir + "; "@ + e@,
            100,
        ),
    }
}

/// The report of the tiles that were cleared away after they were sent, or could not be.
pub fn cleanup_output_tiles(job_id: &str, dir: &str, outcome: &Result<(), String>) -> (r:
    ProgressEvent)
    ensures
        r@ == output_cleanup_event(job_id@, dir@, *outcome),
{
    match outcome {
        Ok(_) => {
            let message = concat2("上传完成，已删除本地临时瓦片目录: ", dir);
            ProgressEvent::new(job_id, "cleanup_output", "info", message.as_str(), 100)
        },
        Err(e) => {
            let message = concat4(
                "本地临时瓦片目录清理失败，已保留: ",
                dir,
                "; ",
                e.as_str(),
            );
            ProgressEvent::new(job_id, "cleanup_output", "warn", message.as_str(), 100)
        },
    }
}

// The course of a job.

/// The request names no output directory.
pub open spec fn is_auto(req: TileJobRequest) -> bool {
    trimmed(req.output_dir@).len() == 0
}

/// The pattern of the paths of the tiles in a directory.
pub open spec fn tile_template(dir: Seq<char>, format: TileOutputFormat) -> Seq<char> {
    dir + "/{z}/{x}/{y}."@ + format.extension_text()
}

/// The first stage that failed, among those that have run.
pub open spec fn first_failure(stages: Seq<Result<(), String>>) -> Option<Seq<char>>
    decreases stages.len(),
{
    if stages.len() == 0 {
        None
    } else {
        match first_failure(stages.drop_last()) {
            Some(e) => Some(e),
            None => match stages.last() {
                Err(e) => Some(e@),
                Ok(_) => None,
            },
        }
    }
}

/// What a job that has succeeded has brought about.
pub open spec fn job_result(
    req: TileJobRequest,
    dir: Seq<char>,
    plan: PlanView,
    facts: JobFacts,
    summary: Option<SummaryView>,
) -> JobResultView {
    let kept = retained(plan.intermediates, facts.removed@);
    JobResultView {
        job_id: req.job_id@,
        output_dir: dir,
        tile_template: tile_template(dir, plan.format),
        generated_intermediate_files: match facts.output_removed {
            Some(Err(_)) => if is_auto(req) && upload_wanted(req) {
                kept.push(dir)
            } else {
                kept
            },
            _ => kept,
        },
        upload_summary: summary,
    }
}

/// The end of a job whose tiles have been sent, or were not to be: those that were sent are cleared
/// away where the directory was made for the job, and the end is reported.
pub open spec fn closing_step(
    req: TileJobRequest,
    dir: Seq<char>,
    plan: PlanView,
    facts: JobFacts,
    summary: Option<SummaryView>,
) -> JobStepView {
    if is_auto(req) && upload_wanted(req) && facts.output_removed is None {
        JobStepView::RemoveOutput(dir)
    } else {
        match facts.reported {
            None => JobStepView::Report(
                event(req.job_id@, "done"@, "success"@, "瓦片生成完成"@, 100),
            ),
            Some(Err(e)) => JobStepView::Finish(Err(emit_error(e@))),
            Some(Ok(_)) => JobStepView::Finish(Ok(job_result(req, dir, plan, facts, summary))),
        }
    }
}

/// The course of a job with known stages. They run one after another until one fails; then the job
/// is taken out of those under way and ends with that error. Else the tiles are uploaded, without
/// the files between the stages, and the job is taken out of those under way. An upload that fails
/// the job ends it, and the files between the stages stay. Else they are cleared away, and the job
/// is closed.
pub open spec fn planned_step(
    req: TileJobRequest,
    dir: Seq<char>,
    plan: PlanView,
    facts: JobFacts,
) -> JobStepView {
    match first_failure(facts.stages@) {
        Some(error) => match facts.unregistered {
            None => JobStepView::Unregister,
            Some(Err(e)) => JobStepView::Finish(Err(e@)),
            Some(Ok(_)) => JobStepView::Finish(Err(error)),
        },
        None => if facts.stages@.len() < plan.stages.len() {
            JobStepView::RunStage(facts.stages@.len() as int)
        } else {
            match facts.uploaded {
                None => JobStepView::Upload(plan.intermediates),
                Some(outcome) => match facts.unregistered {
                    None => JobStepView::Unregister,
                    Some(Err(e)) => JobStepView::Finish(Err(e@)),
                    Some(Ok(_)) => match outcome_view(outcome) {
                        Err(e) => JobStepView::Finish(Err(e)),
                        Ok(summary) => if facts.removed@.len() < plan.intermediates.len() {
                            JobStepView::Remove(plan.intermediates[facts.removed@.len() as int])
                        } else {
                            closing_step(req, dir, plan, facts, summary)
                        },
                    },
                },
            }
        },
    }
}

/// The course of a job with a known output directory: the request is checked, the directory is
/// made, the job is taken among those under way, its begin is reported, and its stages are found.
pub open spec fn settled_step(req: TileJobRequest, dir: Seq<char>, facts: JobFacts) -> JobStepView {
    match facts.input_exists {
        None => JobStepView::CheckInput(req.input_path@),
        Some(exists) => match request_fault(req, exists) {
            Some(fault) => JobStepView::Finish(Err(fault)),
            None => match facts.output_made {
                None => JobStepView::MakeDir(dir),
                Some(Err(e)) => JobStepView::Finish(
                    Err("无法创建目录 "@ + dir + ": "@ + e@),
                ),
                Some(Ok(_)) => match facts.registered {
                    None => JobStepView::Register(dir),
                    Some(Err(e)) => JobStepView::Finish(Err(e@)),
                    Some(Ok(_)) => match facts.announced {
                        None => JobStepView::Announce(
                            event(req.job_id@, "prepare"@, "info"@, "开始执行切图任务"@, 0),
                        ),
                        Some(Err(e)) => JobStepView::Finish(Err(emit_error(e@))),
                        Some(Ok(_)) => match facts.planned {
                            None => JobStepView::Plan,
                            Some(Err(e)) => JobStepView::Finish(Err(e@)),
                            Some(Ok(plan)) => planned_step(req, dir, plan@, facts),
                        },
                    },
                },
            },
        },
    }
}

/// The course of a job: a request that names no output directory gets a fresh one.
pub open spec fn job_step(req: TileJobRequest, facts: JobFacts) -> JobStepView {
    if is_auto(req) {
        match facts.allocated {
            None => JobStepView::AllocateDir,
            Some(Err((dir, e))) => JobStepView::Finish(
                Err("无法创建默认输出目录 "@ + dir@ + ": "@ + e@),
            ),
            Some(Ok(dir)) => settled_step(req, dir@, facts),
        }
    } else {
        settled_step(req, req.output_dir@, facts)
    }
}

/// The error of a directory for tiles that could not be made.
pub fn default_directory_failure(dir: &str, err: &str) -> (r: String)
    ensures
        r@ == "无法创建默认输出目录 "@ + dir@ + ": "@ + err@,
{
    concat4("无法创建默认输出目录 ", dir, ": ", err)
}

fn failed_stage(stages: &Vec<Result<(), String>>) -> (r: Option<String>)
    ensures
        opt_text(r) == first_failure(stages@),
{
    let mut i: usize = 0;
    while i < stages.len()
        invariant
            i <= stages@.len(),
            first_failure(stages@.take(i as int)) is None,
        decreases stages@.len() - i,
    {
        assert(stages@.take(i + 1).drop_last() =~= stages@.take(i as int));
        if let Err(e) = &stages[i] {
            proof {
                lemma_failure_stays(stages@, i + 1);
            }
            return Some(e.clone());
        }
        i += 1;
    }
    assert(stages@.take(i as int) =~= stages@);
    None
}

proof fn lemma_failure_stays(stages: Seq<Result<(), String>>, n: int)
    requires
        0 <= n <= stages.len(),
        first_failure(stages.take(n)) is Some,
    ensures
        first_failure(stages) == first_failure(stages.take(n)),
    decreases stages.len(),
{
    if n == stages.len() {
        assert(stages.take(n) =~= stages);
    } else {
        assert(stages.drop_last().take(n) =~= stages.take(n));
        lemma_failure_stays(stages.drop_last(), n);
    }
}

fn finish_with(message: String) -> (r: JobStep)
    ensures
        r@ == JobStepView::Finish(Err(message@)),
{
    JobStep::Finish(Err(message))
}

fn wants_upload(req: &TileJobRequest) -> (r: bool)
    ensures
        r == upload_wanted(*req),
{
    match &req.upload_config {
        Some(config) => config.enabled,
        None => false,
    }
}

fn copy_outcome(o: &Option<OssUploadSummary>) -> (r: Option<OssUploadSummary>)
    ensures
        opt_summary(r) == opt_summary(*o),
{
    match o {
        Some(s) => Some(copy_summary(s)),
        None => None,
    }
}

fn next_closing(
    req: &TileJobRequest,
    auto: bool,
    dir: &str,
    plan: &StagePlan,
    facts: &JobFacts,
    summary: &Option<OssUploadSummary>,
) -> (r: JobStep)
    requires
        auto == is_auto(*req),
    ensures
        r@ == closing_step(*req, dir@, plan@, *facts, opt_summary(*summary)),
{
    let clears = auto && wants_upload(req);
    if clears && facts.output_removed.is_none() {
        return JobStep::RemoveOutput(dir.to_string());
    }
    match &facts.reported {
        None => JobStep::Report(
            ProgressEvent::new(req.job_id.as_str(), "done", "success", "瓦片生成完成", 100),
        ),
        Some(Err(e)) => finish_with(emit_failure(e.as_str())),
        Some(Ok(_)) => {
            let mut kept = cleanup_intermediates(&plan.intermediates, &facts.removed);
            if let Some(Err(_)) = &facts.output_removed {
                if clears {
                    push_text(&mut kept, dir);
                }
            }
            let template = concat3(dir, "/{z}/{x}/{y}.", plan.format.extension());
            JobStep::Finish(
                Ok(
                    TileJobResult {
                        job_id: req.job_id.clone(),
                        output_dir: dir.to_string(),
                        tile_template: template,
                        generated_intermediate_files: kept,
                        upload_summary: copy_outcome(summary),
                    },
                ),
            )
        },
    }
}

fn next_planned(
    req: &TileJobRequest,
    auto: bool,
    dir: &str,
    plan: &StagePlan,
    facts: &JobFacts,
) -> (r: JobStep)
    requires
        auto == is_auto(*req),
    ensures
        r@ == planned_step(*req, dir@, plan@, *facts),
{
    if let Some(error) = failed_stage(&facts.stages) {
        return match &facts.unregistered {
            None => JobStep::Unregister,
            Some(Err(e)) => finish_with(e.clone()),
            Some(Ok(_)) => finish_with(error),
        };
    }
    if facts.stages.len() < plan.stages.len() {
        return JobStep::RunStage(facts.stages.len());
    }
    match &facts.uploaded {
        None => JobStep::Upload(copy_texts(&plan.intermediates)),
        Some(outcome) => match &facts.unregistered {
            None => JobStep::Unregister,
            Some(Err(e)) => finish_with(e.clone()),
            Some(Ok(_)) => match outcome {
                Err(e) => finish_with(e.clone()),
                Ok(summary) => {
                    assert(outcome_view(*outcome) == Ok::<Option<SummaryView>, Seq<char>>(
                        opt_summary(*summary),
                    ));
                    let cleared = facts.removed.len();
                    if cleared < plan.intermediates.len() {
                        return JobStep::Remove(plan.intermediates[cleared].clone());
                    }
                    next_closing(req, auto, dir, plan, facts, summary)
                },
            },
        },
    }
}

fn next_settled(req: &TileJobRequest, auto: bool, dir: &str, facts: &JobFacts) -> (r: JobStep)
    requires
        auto == is_auto(*req),
    ensures
        r@ == settled_step(*req, dir@, *facts),
{
    let exists = match &facts.input_exists {
        None => {
            return JobStep::CheckInput(req.input_path.clone());
        },
        Some(exists) => *exists,
    };
    if let Err(fault) = validate_request(req, exists) {
        return finish_with(fault);
    }
    match &facts.output_made {
        None => JobStep::MakeDir(dir.to_string()),
        Some(Err(e)) => finish_with(directory_failure(dir, e.as_str())),
        Some(Ok(_)) => match &facts.registered {
            None => JobStep::Register(dir.to_string()),
            Some(Err(e)) => finish_with(e.clone()),
            Some(Ok(_)) => match &facts.announced {
                None => JobStep::Announce(
                    ProgressEvent::new(req.job_id.as_str(), "prepare", "info", "开始执行切图任务", 0),
                ),
                Some(Err(e)) => finish_with(emit_failure(e.as_str())),
                Some(Ok(_)) => match &facts.planned {
                    None => JobStep::Plan,
                    Some(Err(e)) => finish_with(e.clone()),
                    Some(Ok(plan)) => next_planned(req, auto, dir, plan, facts),
                },
            },
        },
    }
}

/// What is to be done next for a job, given what is known of it.
pub fn run_tile_pipeline(req: &TileJobRequest, facts: &JobFacts) -> (r: JobStep)
    ensures
        r@ == job_step(*req, *facts),
{
    let auto = trim(req.output_dir.as_str()).as_str().is_empty();
    if auto {
        match &facts.allocated {
            None => JobStep::AllocateDir,
            Some(Err(failure)) => finish_with(
                default_directory_failure(failure.0.as_str(), failure.1.as_str()),
            ),
            Some(Ok(dir)) => next_settled(req, auto, dir.as_str(), facts),
        }
    } else {
        next_settled(req, auto, req.output_dir.as_str(), facts)
    }
}

/// The request with its output directory settled. Its stages and its upload go by this one.
pub fn settle_output_dir(req: TileJobRequest, dir: String) -> (r: TileJobRequest)
    ensures
        r == (TileJobRequest { output_dir: dir, ..req }),
{
    TileJobRequest { output_dir: dir, ..req }
}

// Laws.

proof fn lemma_no_failure(stages: Seq<Result<(), String>>)
    requires
        first_failure(stages) is None,
    ensures
        forall|i: int| 0 <= i < stages.len() ==> (#[trigger] stages[i]) is Ok,
    decreases stages.len(),
{
    if stages.len() > 0 {
        lemma_no_failure(stages.drop_last());
        assert forall|i: int| 0 <= i < stages.len() implies (#[trigger] stages[i]) is Ok by {
            if i < stages.len() - 1 {
                assert(stages.drop_last()[i] == stages[i]);
            }
        }
    }
}

/// The output directory of a job, once it is settled.
pub open spec fn settled_dir(req: TileJobRequest, facts: JobFacts) -> Option<Seq<char>> {
    if is_auto(req) {
        match facts.allocated {
            Some(Ok(dir)) => Some(dir@),
            _ => None,
        }
    } else {
        Some(req.output_dir@)
    }
}

/// The job has known stages, and all of them have succeeded.
pub open spec fn all_stages_succeeded(facts: JobFacts) -> bool {
    &&& facts.planned matches Some(Ok(plan)) && facts.stages@.len() >= plan.stages@.len()
    &&& forall|i: int| 0 <= i < facts.stages@.len() ==> (#[trigger] facts.stages@[i]) is Ok
}

/// A job succeeds only when all its stages have succeeded, the upload did not fail it, it is no
/// longer among those under way, and its end was reported. Its result names the directory of the
/// tiles.
pub proof fn success_means_every_stage_succeeded(
    req: TileJobRequest,
    facts: JobFacts,
    result: JobResultView,
)
    requires
        job_step(req, facts) == JobStepView::Finish(Ok(result)),
    ensures
        all_stages_succeeded(facts),
        facts.registered matches Some(Ok(_)),
        facts.uploaded matches Some(Ok(_)),
        facts.unregistered matches Some(Ok(_)),
        facts.reported matches Some(Ok(_)),
        result.job_id == req.job_id@,
        settled_dir(req, facts) == Some(result.output_dir),
{
    lemma_no_failure(facts.stages@);
}

/// A stage runs only when all stages before it have succeeded, and each stage runs once.
pub proof fn stages_run_in_order(req: TileJobRequest, facts: JobFacts, i: int)
    requires
        job_step(req, facts) == JobStepView::RunStage(i),
    ensures
        i == facts.stages@.len(),
        facts.planned matches Some(Ok(plan)) && i < plan.stages@.len(),
        forall|j: int| 0 <= j < i ==> (#[trigger] facts.stages@[j]) is Ok,
        facts.registered matches Some(Ok(_)),
{
    lemma_no_failure(facts.stages@);
}

/// When a stage fails, nothing more is done for the job than to take it out of those under way,
/// and it ends with the error of the stage. What the stages have left behind stays.
pub proof fn failed_stage_ends_the_job(req: TileJobRequest, facts: JobFacts, plan: PlanView)
    requires
        first_failure(facts.stages@) is Some,
    ensures
        forall|dir: Seq<char>|
            match #[trigger] planned_step(req, dir, plan, facts) {
                JobStepView::Unregister => facts.unregistered is None,
                JobStepView::Finish(Err(e)) => match facts.unregistered {
                    Some(Ok(_)) => e == first_failure(facts.stages@)->Some_0,
                    Some(Err(lost)) => e == lost@,
                    None => false,
                },
                _ => false,
            },
{
}

/// A file between the stages is cleared away only when all stages have succeeded and the upload did
/// not fail the job.
pub proof fn files_are_cleared_only_after_success(
    req: TileJobRequest,
    facts: JobFacts,
    path: Seq<char>,
)
    requires
        job_step(req, facts) == JobStepView::Remove(path),
    ensures
        all_stages_succeeded(facts),
        facts.uploaded matches Some(Ok(_)),
        facts.unregistered matches Some(Ok(_)),
        facts.planned matches Some(Ok(plan)) && plan@.intermediates.contains(path),
{
    lemma_no_failure(facts.stages@);
    let plan = facts.planned->Some_0->Ok_0;
    assert(plan@.intermediates[facts.removed@.len() as int] == path);
}

/// The files between the stages are not sent: a job that has come to its upload gives its plan's
/// files between the stages along, and none of them is in the batch.
pub proof fn files_between_stages_are_not_uploaded(
    req: TileJobRequest,
    facts: JobFacts,
    between: Seq<Seq<char>>,
    config: OssUploadConfig,
    env: OssEnvironment,
    run_id: Seq<char>,
    walked: Seq<Seq<char>>,
    batch: UploadPlan,
    g: int,
    i: int,
)
    requires
        job_step(req, facts) == JobStepView::Upload(between),
        settled_dir(req, facts) matches Some(dir) && upload_planned(
            dir,
            run_id,
            config,
            env,
            walked,
            between,
            Ok(batch),
        ),
        0 <= g < batch.groups@.len(),
        0 <= i < batch.groups@[g].files@.len(),
    ensures
        facts.planned matches Some(Ok(plan)) && !plan@.intermediates.contains(
            batch.groups@[g].files@[i]@.file_path,
        ),
{
    let dir = settled_dir(req, facts)->Some_0;
    files_between_stages_are_not_sent(dir, run_id, config, env, walked, between, batch, g, i);
}

/// When the upload fails a job, nothing more is done for it than to take it out of those under way,
/// and it ends with the error of the upload. The files between the stages stay.
pub proof fn failed_upload_ends_the_job(
    req: TileJobRequest,
    facts: JobFacts,
    plan: PlanView,
    dir: Seq<char>,
)
    requires
        first_failure(facts.stages@) is None,
        facts.stages@.len() >= plan.stages.len(),
        facts.uploaded matches Some(Err(_)),
    ensures
        planned_step(req, dir, plan, facts) == match facts.unregistered {
            None => JobStepView::Unregister,
            Some(Err(lost)) => JobStepView::Finish(Err(lost@)),
            Some(Ok(_)) => JobStepView::Finish(Err(facts.uploaded->Some_0->Err_0@)),
        },
{
}

/// The directory of the tiles is removed only where it was made for the job and the tiles were
/// sent; a directory that the request names is never removed.
pub proof fn only_own_directories_are_removed(
    req: TileJobRequest,
    facts: JobFacts,
    dir: Seq<char>,
)
    requires
        job_step(req, facts) == JobStepView::RemoveOutput(dir),
    ensures
        is_auto(req),
        upload_wanted(req),
        facts.allocated matches Some(Ok(made)) && made@ == dir,
        facts.uploaded matches Some(Ok(_)),
        all_stages_succeeded(facts),
{
    lemma_no_failure(facts.stages@);
}

/// A job stays among those under way until a stage has failed or its tiles have been dealt with, so
/// that it can be cancelled meanwhile.
pub proof fn job_can_be_cancelled_until_uploaded(req: TileJobRequest, facts: JobFacts)
    requires
        job_step(req, facts) == JobStepView::Unregister,
    ensures
        first_failure(facts.stages@) is Some || facts.uploaded is Some,
{
}

/// A job whose stages are known does not end before it was taken out of those under way, whether
/// it succeeds or fails.
pub proof fn no_identifier_is_left_behind(
    req: TileJobRequest,
    facts: JobFacts,
    plan: PlanView,
    dir: Seq<char>,
)
    requires
        planned_step(req, dir, plan, facts) is Finish,
    ensures
        facts.unregistered is Some,
{
}

/// 1 for what is not known yet, 0 for what is.
pub open spec fn unknown<T>(o: Option<T>) -> int {
    if o is None {
        1
    } else {
        0
    }
}

/// How much of a list is still to come.
pub open spec fn missing(wanted: nat, there: nat) -> int {
    if there < wanted {
        wanted - there
    } else {
        0
    }
}

/// The second facts are the first with the outcome of a step of the job.
pub open spec fn is_outcome(step: JobStepView, f: JobFacts, g: JobFacts) -> bool {
    match step {
        JobStepView::AllocateDir => g.allocated is Some && g == (JobFacts {
            allocated: g.allocated,
            ..f
        }),
        JobStepView::CheckInput(_) => g.input_exists is Some && g == (JobFacts {
            input_exists: g.input_exists,
            ..f
        }),
        JobStepView::MakeDir(_) => g.output_made is Some && g == (JobFacts {
            output_made: g.output_made,
            ..f
        }),
        JobStepView::Register(_) => g.registered is Some && g == (JobFacts {
            registered: g.registered,
            ..f
        }),
        JobStepView::Announce(_) => g.announced is Some && g == (JobFacts {
            announced: g.announced,
            ..f
        }),
        JobStepView::Plan => g.planned is Some && g == (JobFacts { planned: g.planned, ..f }),
        JobStepView::RunStage(_) => g.stages@.len() == f.stages@.len() + 1 && g == (JobFacts {
            stages: g.stages,
            ..f
        }),
        JobStepView::Remove(_) => g.removed@.len() == f.removed@.len() + 1 && g == (JobFacts {
            removed: g.removed,
            ..f
        }),
        JobStepView::Upload(_) => g.uploaded is Some && g == (JobFacts { uploaded: g.uploaded, ..f }),
        JobStepView::Unregister => g.unregistered is Some && g == (JobFacts {
            unregistered: g.unregistered,
            ..f
        }),
        JobStepView::RemoveOutput(_) => g.output_removed is Some && g == (JobFacts {
            output_removed: g.output_removed,
            ..f
        }),
        JobStepView::Report(_) => g.reported is Some && g == (JobFacts { reported: g.reported, ..f }),
        JobStepView::Finish(_) => false,
    }
}

/// The number of steps that a job with known stages has before it at most.
pub open spec fn steps_left(f: JobFacts) -> int {
    unknown(f.allocated) + unknown(f.input_exists) + unknown(f.output_made) + unknown(f.registered)
        + unknown(f.announced) + unknown(f.uploaded) + unknown(f.unregistered) + unknown(
        f.output_removed,
    ) + unknown(f.reported) + match f.planned {
        Some(Ok(plan)) => missing(plan.stages@.len(), f.stages@.len()) + missing(
            plan.intermediates@.len(),
            f.removed@.len(),
        ),
        _ => 0,
    }
}

/// Every step brings a job closer to its end: either its stages become known, or fewer steps are
/// left.
pub proof fn every_step_brings_the_end_closer(req: TileJobRequest, f: JobFacts, g: JobFacts)
    requires
        is_outcome(job_step(req, f), f, g),
    ensures
        unknown(g.planned) < unknown(f.planned) || (unknown(g.planned) == unknown(f.planned) && 0
            <= steps_left(g) < steps_left(f)),
{
}

/// The pattern of the tiles of a job that has succeeded is its output directory with the places of
/// level, column and row, and the extension of the format that the tiles are written in.
pub proof fn template_matches_the_tiles(
    req: TileJobRequest,
    facts: JobFacts,
    result: JobResultView,
)
    requires
        job_step(req, facts) == JobStepView::Finish(Ok(result)),
    ensures
        facts.planned matches Some(Ok(plan)) && {
            &&& plan.format == TileOutputFormat::Webp ==> result.tile_template == result.output_dir
                + "/{z}/{x}/{y}."@ + "webp"@
            &&& plan.format == TileOutputFormat::Jpeg ==> result.tile_template == result.output_dir
                + "/{z}/{x}/{y}."@ + "jpg"@
        },
{
}

/// The extension in the pattern of a job goes with the driver that its last stage was given.
pub proof fn template_goes_with_the_driver(
    req: TileJobRequest,
    facts: JobFacts,
    result: JobResultView,
    settled: TileJobRequest,
    paths: PathsView,
    tiler: Seq<char>,
    format: TileOutputFormat,
    direct: bool,
)
    requires
        job_step(req, facts) == JobStepView::Finish(Ok(result)),
        facts.planned matches Some(Ok(plan)) && staged(settled, paths, tiler, format, direct)
            == Ok::<PlanView, Seq<char>>(plan@),
    ensures
        ({
            let args = facts.planned->Some_0->Ok_0@.stages.last().args;
            &&& args[4] == "--tiledriver"@
            &&& args[5] == "WEBP"@ ==> result.tile_template == result.output_dir
                + "/{z}/{x}/{y}."@ + "webp"@
            &&& args[5] == "JPEG"@ ==> result.tile_template == result.output_dir
                + "/{z}/{x}/{y}."@ + "jpg"@
            &&& args[5] == "WEBP"@ || args[5] == "JPEG"@
        }),
{
    template_matches_the_tiles(req, facts, result);
    tiles_are_cut_as_requested(settled, paths, tiler, format, direct);
    reveal_strlit("WEBP");
    reveal_strlit("JPEG");
    assert("WEBP"@[0] != "JPEG"@[0]);
}

/// A job that has succeeded tells what came of its upload and which directory holds its tiles. It
/// has tried to clear away every file between its stages.
pub proof fn result_tells_of_the_upload(
    req: TileJobRequest,
    facts: JobFacts,
    result: JobResultView,
)
    requires
        job_step(req, facts) == JobStepView::Finish(Ok(result)),
    ensures
        result.job_id == req.job_id@,
        facts.uploaded matches Some(Ok(None)) ==> result.upload_summary is None,
        facts.uploaded matches Some(Ok(Some(s))) ==> result.upload_summary == Some(s@),
        facts.planned matches Some(Ok(plan)) && facts.removed@.len() >= plan.intermediates@.len(),
        is_auto(req) && upload_wanted(req) ==> facts.output_removed is Some,
{
}

proof fn lemma_retained(paths: Seq<Seq<char>>, outcomes: Seq<Result<(), String>>, n: int)
    requires
        0 <= n <= paths.len(),
        n <= outcomes.len(),
    ensures
        forall|path: Seq<char>| #[trigger]
            retained(paths.take(n), outcomes.take(n)).contains(path) <==> exists|i: int|
                0 <= i < n && #[trigger] paths[i] == path && outcomes[i] is Err,
    decreases n,
{
    let now = retained(paths.take(n), outcomes.take(n));
    if n > 0 {
        lemma_retained(paths, outcomes, n - 1);
        assert(paths.take(n).take(n - 1) =~= paths.take(n - 1));
        assert(outcomes.take(n).take(n - 1) =~= outcomes.take(n - 1));
        let before = retained(paths.take(n - 1), outcomes.take(n - 1));
        assert forall|path: Seq<char>| #[trigger] now.contains(path) <==> exists|i: int|
            0 <= i < n && #[trigger] paths[i] == path && outcomes[i] is Err by {
            if now.contains(path) {
                let k = choose|k: int| 0 <= k < now.len() && now[k] == path;
                if k < before.len() {
                    assert(before[k] == path);
                    assert(before.contains(path));
                } else {
                    assert(paths[n - 1] == path && outcomes[n - 1] is Err);
                }
            }
            if exists|i: int| 0 <= i < n && #[trigger] paths[i] == path && outcomes[i] is Err {
                let i = choose|i: int|
                    0 <= i < n && #[trigger] paths[i] == path && outcomes[i] is Err;
                if i < n - 1 {
                    assert(before.contains(path));
                    let k = choose|k: int| 0 <= k < before.len() && before[k] == path;
                    assert(now[k] == path);
                } else {
                    assert(now[before.len() as int] == path);
                }
            }
        }
    } else {
        assert(now =~= Seq::<Seq<char>>::empty());
    }
}

/// The files that a job tells of as left behind are those between its stages that could not be
/// removed, and its own output directory where that could not be; nothing else.
pub proof fn result_names_what_was_left_behind(
    req: TileJobRequest,
    facts: JobFacts,
    result: JobResultView,
    path: Seq<char>,
)
    requires
        job_step(req, facts) == JobStepView::Finish(Ok(result)),
    ensures
        facts.planned matches Some(Ok(plan)) && (result.generated_intermediate_files.contains(path)
            <==> ((exists|i: int|
            0 <= i < plan@.intermediates.len() && #[trigger] plan@.intermediates[i] == path
                && facts.removed@[i] is Err) || (is_auto(req) && upload_wanted(req)
            && (facts.output_removed matches Some(Err(_))) && path == result.output_dir))),
{
    let plan = facts.planned->Some_0->Ok_0@;
    let paths = plan.intermediates;
    let n = paths.len() as int;
    let kept = retained(paths, facts.removed@);
    lemma_retained(paths, facts.removed@, n);
    assert(paths.take(n) =~= paths);
    assert(retained(paths.take(n), facts.removed@.take(n)) == kept) by {
        if n > 0 {
            assert(paths.take(n).take(n - 1) =~= paths.take(n - 1));
            assert(facts.removed@.take(n).take(n - 1) =~= facts.removed@.take(n - 1));
        }
    }
    let told = result.generated_intermediate_files;
    if told != kept {
        assert(told == kept.push(result.output_dir));
        if told.contains(path) {
            let k = choose|k: int| 0 <= k < told.len() && told[k] == path;
            if k < kept.len() {
                assert(kept[k] == path);
                assert(kept.contains(path));
            }
        }
        if kept.contains(path) {
            let k = choose|k: int| 0 <= k < kept.len() && kept[k] == path;
            assert(told[k] == path);
        }
        assert(told[kept.len() as int] == result.output_dir);
    }
}

/// Nothing is made, registered or run for a request with a fault; the fault is its answer.
pub proof fn faulty_requests_are_answered_at_once(
    req: TileJobRequest,
    dir: Seq<char>,
    facts: JobFacts,
    exists: bool,
)
    requires
        facts.input_exists == Some(exists),
    ensures
        req.zoom_min > req.zoom_max ==> settled_step(req, dir, facts) == JobStepView::Finish(
            Err("最小缩放级别不能大于最大缩放级别"@),
        ),
        req.zoom_min <= req.zoom_max && req.zoom_max > 24 ==> settled_step(req, dir, facts)
            == JobStepView::Finish(Err("最大缩放级别不应超过 24"@)),
        req.zoom_min <= req.zoom_max <= 24 && !exists ==> settled_step(req, dir, facts)
            == JobStepView::Finish(Err("输入文件不存在: "@ + req.input_path@)),
        req.zoom_min <= req.zoom_max <= 24 && exists && facts.output_made is None ==> settled_step(
            req,
            dir,
            facts,
        ) == JobStepView::MakeDir(dir),
{
}

/// The begin of a job: a job whose request is in order makes its directory, is taken among those
/// under way, is announced at 0 percent and finds its stages, in this order. The first of these that
/// fails ends it with its error.
pub proof fn begin_of_a_job(req: TileJobRequest, dir: Seq<char>, facts: JobFacts)
    requires
        facts.input_exists == Some(true),
        req.zoom_min <= req.zoom_max <= 24,
    ensures
        match facts.output_made {
            None => settled_step(req, dir, facts) == JobStepView::MakeDir(dir),
            Some(Err(e)) => settled_step(req, dir, facts) == JobStepView::Finish(
                Err("无法创建目录 "@ + dir + ": "@ + e@),
            ),
            Some(Ok(_)) => match facts.registered {
                None => settled_step(req, dir, facts) == JobStepView::Register(dir),
                Some(Err(e)) => settled_step(req, dir, facts) == JobStepView::Finish(Err(e@)),
                Some(Ok(_)) => match facts.announced {
                    None => settled_step(req, dir, facts) matches JobStepView::Announce(e)
                        && e.job_id == req.job_id@ && e.stage == "prepare"@ && e.level == "info"@
                        && e.message == "开始执行切图任务"@ && e.percent == 0,
                    Some(Err(e)) => settled_step(req, dir, facts) == JobStepView::Finish(
                        Err("发送进度事件失败: "@ + e@),
                    ),
                    Some(Ok(_)) => match facts.planned {
                        None => settled_step(req, dir, facts) == JobStepView::Plan,
                        Some(Err(e)) => settled_step(req, dir, facts) == JobStepView::Finish(
                            Err(e@),
                        ),
                        Some(Ok(_)) => true,
                    },
                },
            },
        },
{
}

/// A request whose output directory is blank gets a fresh one, and one that names a directory gets
/// that one, as it is written.
pub proof fn directory_of_a_job(req: TileJobRequest, facts: JobFacts)
    ensures
        trimmed(req.output_dir@).len() == 0 && facts.allocated is None ==> job_step(req, facts)
            == JobStepView::AllocateDir,
        trimmed(req.output_dir@).len() == 0 ==> (facts.allocated matches Some(Err(f)) ==> job_step(
            req,
            facts,
        ) == JobStepView::Finish(Err("无法创建默认输出目录 "@ + f.0@ + ": "@ + f.1@))),
        job_step(req, facts) matches JobStepView::MakeDir(dir) ==> (if trimmed(
            req.output_dir@,
        ).len() > 0 {
            dir == req.output_dir@
        } else {
            facts.allocated matches Some(Ok(made)) && dir == made@
        }),
        job_step(req, facts) matches JobStepView::Register(dir) ==> (if trimmed(
            req.output_dir@,
        ).len() > 0 {
            dir == req.output_dir@
        } else {
            facts.allocated matches Some(Ok(made)) && dir == made@
        }),
        job_step(req, facts) is AllocateDir ==> trimmed(req.output_dir@).len() == 0,
{
}

/// The end of a job: the directory that was made for it goes once its tiles were sent, and only
/// where the request asks for an upload; then the end is reported at 100 percent.
pub proof fn end_of_a_job(
    req: TileJobRequest,
    dir: Seq<char>,
    plan: PlanView,
    facts: JobFacts,
    summary: Option<SummaryView>,
)
    requires
        first_failure(facts.stages@) is None,
        facts.stages@.len() >= plan.stages.len(),
        facts.uploaded matches Some(outcome) && outcome_view(outcome) == Ok::<
            Option<SummaryView>,
            Seq<char>,
        >(summary),
        facts.unregistered matches Some(Ok(_)),
        facts.removed@.len() >= plan.intermediates.len(),
    ensures
        ({
            let clears = trimmed(req.output_dir@).len() == 0 && (
            req.upload_config matches Some(config) && config.enabled);
            &&& clears && facts.output_removed is None ==> planned_step(req, dir, plan, facts)
                == JobStepView::RemoveOutput(dir)
            &&& !clears || facts.output_removed is Some ==> match facts.reported {
                None => planned_step(req, dir, plan, facts) matches JobStepView::Report(e)
                    && e.job_id == req.job_id@ && e.stage == "done"@ && e.level == "success"@
                    && e.message == "瓦片生成完成"@ && e.percent == 100,
                Some(Err(e)) => planned_step(req, dir, plan, facts) == JobStepView::Finish(
                    Err("发送进度事件失败: "@ + e@),
                ),
                Some(Ok(_)) => planned_step(req, dir, plan, facts) matches JobStepView::Finish(
                    Ok(_),
                ),
            }
        }),
{
}

/// The files between the stages are cleared away one after another, each once, in the order of the
/// stages, before the job is closed.
pub proof fn files_are_cleared_in_order(
    req: TileJobRequest,
    dir: Seq<char>,
    plan: PlanView,
    facts: JobFacts,
)
    requires
        first_failure(facts.stages@) is None,
        facts.stages@.len() >= plan.stages.len(),
        facts.uploaded matches Some(Ok(_)),
        facts.unregistered matches Some(Ok(_)),
        facts.removed@.len() < plan.intermediates.len(),
    ensures
        planned_step(req, dir, plan, facts) == JobStepView::Remove(
            plan.intermediates[facts.removed@.len() as int],
        ),
{
}

/// Of several stages that failed, the first one counts.
pub proof fn first_failure_counts(stages: Seq<Result<(), String>>)
    ensures
        first_failure(stages) is None <==> forall|i: int|
            0 <= i < stages.len() ==> (#[trigger] stages[i]) is Ok,
        first_failure(stages) matches Some(e) ==> exists|i: int|
            0 <= i < stages.len() && ((#[trigger] stages[i]) matches Err(f) && f@ == e) && (forall|
                j: int,
            |
                0 <= j < i ==> (#[trigger] stages[j]) is Ok),
    decreases stages.len(),
{
    if stages.len() > 0 {
        let head = stages.drop_last();
        let n = stages.len() - 1;
        first_failure_counts(head);
        assert(forall|i: int| 0 <= i < n ==> head[i] == stages[i]);
        if first_failure(head) is Some {
            let i = choose|i: int|
                0 <= i < head.len() && ((#[trigger] head[i]) matches Err(f) && f@ == first_failure(
                    head,
                )->Some_0) && (forall|j: int| 0 <= j < i ==> (#[trigger] head[j]) is Ok);
            assert(stages[i] == head[i]);
            assert forall|j: int| 0 <= j < i implies (#[trigger] stages[j]) is Ok by {
                assert(head[j] is Ok);
            }
        } else {
            assert forall|j: int| 0 <= j < n implies (#[trigger] stages[j]) is Ok by {
                assert(head[j] is Ok);
            }
            if stages[n] is Err {
                assert(stages[n] matches Err(f) && f@ == first_failure(stages)->Some_0);
            }
        }
    }
}

/// What is told of clearing away names the file or the directory and the error, as a warning where
/// it failed, and does not take the job back from its end.
pub proof fn clearing_away_is_told(job_id: Seq<char>, path: Seq<char>, err: String)
    ensures
        retained_event(job_id, path, err@).job_id == job_id,
        retained_event(job_id, path, err@).stage == "cleanup_intermediates"@,
        retained_event(job_id, path, err@).level == "warn"@,
        retained_event(job_id, path, err@).message == "中间文件清理失败，已保留: "@ + path + "; "@
            + err@,
        retained_event(job_id, path, err@).percent == 100,
        output_cleanup_event(job_id, path, Ok(())).level == "info"@,
        output_cleanup_event(job_id, path, Ok(())).message == "上传完成，已删除本地临时瓦片目录: "@
            + path,
        output_cleanup_event(job_id, path, Err(err)).level == "warn"@,
        output_cleanup_event(job_id, path, Err(err)).message
            == "本地临时瓦片目录清理失败，已保留: "@ + path + "; "@ + err@,
        forall|outcome: Result<(), String>|
            (#[trigger] output_cleanup_event(job_id, path, outcome)).stage == "cleanup_output"@
                && output_cleanup_event(job_id, path, outcome).job_id == job_id
                && output_cleanup_event(job_id, path, outcome).percent == 100,
{
}

/// An upload begins only when all stages have succeeded, and a job whose tiles were dealt with is
/// taken out of those under way before anything else is done for it.
pub proof fn upload_follows_the_stages(req: TileJobRequest, facts: JobFacts)
    ensures
        job_step(req, facts) is Upload ==> all_stages_succeeded(facts) && facts.uploaded is None,
        job_step(req, facts) is Remove || job_step(req, facts) is RemoveOutput || job_step(
            req,
            facts,
        ) is Report ==> facts.uploaded is Some && facts.unregistered is Some,
{
    if job_step(req, facts) is Upload {
        lemma_no_failure(facts.stages@);
    }
}

/// A file that was removed is not told of; one that could not be is, with the error.
pub proof fn only_what_stays_is_told(
    job_id: &str,
    path: &str,
    outcome: Result<(), String>,
    r: Option<ProgressEvent>,
)
    requires
        call_ensures(cleanup_intermediate, (job_id, path, &outcome), r),
    ensures
        r is None <==> outcome is Ok,
        outcome matches Err(e) ==> (r matches Some(told) && told.job_id@ == job_id@
            && told.level@ == "warn"@ && told.message@ == "中间文件清理失败，已保留: "@ + path@ + "; "@
            + e@),
{
}

/// A request with a settled directory is the request in everything else.
pub proof fn settling_changes_only_the_directory(
    req: TileJobRequest,
    dir: String,
    r: TileJobRequest,
)
    requires
        call_ensures(settle_output_dir, (req, dir), r),
    ensures
        r.output_dir == dir,
        r.job_id == req.job_id,
        r.input_path == req.input_path,
        r.working_dir == req.working_dir,
        r.zoom_min == req.zoom_min,
        r.zoom_max == req.zoom_max,
        r.resampling == req.resampling,
        r.target_tile_crs == req.target_tile_crs,
        r.skip_disk_space_check == req.skip_disk_space_check,
        r.gcj_bounds == req.gcj_bounds,
        r.gdal_bin_dir == req.gdal_bin_dir,
        r.gdal2tiles_cmd == req.gdal2tiles_cmd,
        r.upload_config == req.upload_config,
        r.upload_context == req.upload_context,
{
}

/// The course of a job with known stages, from its first stage to the point where its tiles have been
/// dealt with: the stages run one after another, then the tiles are uploaded, and then the job is
/// taken out of those under way; where that fails, the job ends with that error.
pub proof fn course_of_a_job(
    req: TileJobRequest,
    dir: Seq<char>,
    plan: PlanView,
    facts: JobFacts,
    lost: String,
)
    requires
        forall|i: int| 0 <= i < facts.stages@.len() ==> (#[trigger] facts.stages@[i]) is Ok,
    ensures
        facts.stages@.len() < plan.stages.len() ==> planned_step(req, dir, plan, facts)
            == JobStepView::RunStage(facts.stages@.len() as int),
        facts.stages@.len() >= plan.stages.len() && facts.uploaded is None ==> planned_step(
            req,
            dir,
            plan,
            facts,
        ) == JobStepView::Upload(plan.intermediates),
        facts.stages@.len() >= plan.stages.len() && facts.uploaded is Some && facts.unregistered is None
            ==> planned_step(req, dir, plan, facts) == JobStepView::Unregister,
        facts.stages@.len() >= plan.stages.len() && facts.uploaded is Some && facts.unregistered
            == Some(Err::<(), String>(lost)) ==> planned_step(req, dir, plan, facts)
            == JobStepView::Finish(Err(lost@)),
{
    first_failure_counts(facts.stages@);
}

/// What could not be removed is told in the order in which it was tried.
pub proof fn left_behind_files_are_told_in_order(
    paths: Seq<Seq<char>>,
    outcomes: Seq<Result<(), String>>,
    path: Seq<char>,
    err: String,
)
    requires
        paths.len() == outcomes.len(),
    ensures
        retained(paths.push(path), outcomes.push(Ok(()))) == retained(paths, outcomes),
        retained(paths.push(path), outcomes.push(Err(err))) == retained(paths, outcomes).push(path),
        retained(Seq::empty(), outcomes).len() == 0,
{
    let n = paths.len() as int;
    assert(paths.push(path).take(n) =~= paths);
    assert(outcomes.push(Ok(())).take(n) =~= outcomes);
    assert(outcomes.push(Err(err)).take(n) =~= outcomes);
}

/// A job that has ended with success names the pattern of its tiles, with the extension of the format
/// that was planned for them.
pub proof fn finished_jobs_name_their_tiles(req: TileJobRequest, facts: JobFacts, r: JobStep)
    requires
        call_ensures(run_tile_pipeline, (&req, &facts), r),
    ensures
        r matches JobStep::Finish(Ok(result)) ==> (facts.planned matches Some(Ok(plan))
            && result.job_id@ == req.job_id@ && result.tile_template@ == result.output_dir@
            + "/{z}/{x}/{y}."@ + (match plan.format {
            TileOutputFormat::Webp => "webp"@,
            TileOutputFormat::Jpeg => "jpg"@,
        })),
        r matches JobStep::Upload(between) ==> (facts.planned matches Some(Ok(plan)) && texts(
            between@,
        ) == texts(plan.intermediates@)),
        r matches JobStep::Remove(path) ==> facts.uploaded matches Some(Ok(_)),
{
    if let JobStep::Finish(Ok(result)) = r {
        template_matches_the_tiles(req, facts, result@);
    }
}

} // verus!
