//! The upload of the tiles of a job: whether it takes place, what is reported of it, and what its
//! outcome means for the job.

use crate::numbers::decimal;
use crate::numbers::decimal_text;
use crate::oss_batch::failure_views;
use crate::oss_batch::FailureView;
use crate::oss_batch::OssUploadSummary;
use crate::oss_batch::SummaryView;
use crate::oss_batch::UploadFailure;
use crate::oss_upload::root_preview;
use crate::oss_upload::upload_root_prefix_preview;
use crate::oss_upload::OssEnvironment;
use crate::oss_upload::OssUploadConfig;
use crate::progress_event::event;
use crate::progress_event::EventView;
use crate::progress_event::ProgressEvent;
use crate::stage_run::emit_error;
use crate::stage_run::emit_failure;
use crate::text::concat2;
use crate::text::concat4;
use crate::text::contains;
use crate::text::copy_opt;
use crate::text::has_text;
use crate::text::text_at;
use crate::tile_stages::TileJobRequest;
use vstd::prelude::*;

verus! {

/// What is known of the upload of a job so far: the name of the batch, whether its begin was
/// reported, what came of sending it, and whether that was reported.
#[derive(Debug)]
pub struct UploadFacts {
    pub run_id: Option<Result<String, String>>,
    pub prepared: Option<Result<(), String>>,
    pub sent: Option<Result<OssUploadSummary, String>>,
    pub reported: Option<Result<(), String>>,
}

/// What is to be done next for the upload of a job.
#[derive(Debug)]
pub enum UploadStep {
    /// Give the batch its name.
    NameBatch,
    /// Report that the upload begins.
    Prepare(ProgressEvent),
    /// Send the tiles as the batch of this name.
    Send(String),
    /// Report what came of it.
    Report(ProgressEvent),
    Done(Result<Option<OssUploadSummary>, String>),
}

/// The content of an [`UploadStep`].
pub ghost enum UploadStepView {
    NameBatch,
    Prepare(EventView),
    Send(Seq<char>),
    Report(EventView),
    Done(Result<Option<SummaryView>, Seq<char>>),
}

/// The content of the outcome of an upload.
pub open spec fn outcome_view(r: Result<Option<OssUploadSummary>, String>) -> Result<
    Option<SummaryView>,
    Seq<char>,
> {
    match r {
        Ok(Some(s)) => Ok(Some(s@)),
        Ok(None) => Ok(None),
        Err(e) => Err(e@),
    }
}

impl View for UploadStep {
    type V = UploadStepView;

    open spec fn view(&self) -> UploadStepView {
        match *self {
            UploadStep::NameBatch => UploadStepView::NameBatch,
            UploadStep::Prepare(e) => UploadStepView::Prepare(e@),
            UploadStep::Send(id) => UploadStepView::Send(id@),
            UploadStep::Report(e) => UploadStepView::Report(e@),
            UploadStep::Done(r) => UploadStepView::Done(outcome_view(r)),
        }
    }
}

/// The report that the upload begins: with the public URL of the batch, where it is known.
pub open spec fn prepare_event(
    job_id: Seq<char>,
    config: OssUploadConfig,
    env: OssEnvironment,
    run_id: Seq<char>,
) -> EventView {
    event(
        job_id,
        "upload_prepare"@,
        "info"@,
        match root_preview(config, env, run_id) {
            Ok(url) => "切图完成，准备上传 OSS。对象根路径（PUT 前缀）: "@ + url,
            Err(_) => "切图完成，准备上传 OSS（尚未解析根路径，若缺密钥将在随后失败）"@,
        },
        90,
    )
}

/// The report of what came of the upload: a success where no file failed, else a warning.
pub open spec fn upload_done_event(
    job_id: Seq<char>,
    sent: Result<OssUploadSummary, String>,
) -> EventView {
    match sent {
        Ok(s) => event(
            job_id,
            "upload_done"@,
            if s.failed_count == 0 {
                "success"@
            } else {
                "warn"@
            },
            "OSS 上传完成：成功 "@ + decimal(s.uploaded_count as nat) + "，失败 "@ + decimal(
                s.failed_count as nat,
            ),
            99,
        ),
        Err(e) => event(job_id, "upload_done"@, "warn"@, "OSS 上传失败: "@ + e@, 99),
    }
}

/// The text of an optional string, empty where there is none.
pub open spec fn text_or_empty(o: Option<String>) -> Seq<char> {
    match o {
        Some(s) => s@,
        None => ""@,
    }
}

/// The summary of an upload that failed as a whole.
pub open spec fn failed_summary(
    config: OssUploadConfig,
    output_dir: Seq<char>,
    error: Seq<char>,
) -> SummaryView {
    SummaryView {
        uploaded_count: 0,
        failed_count: 1,
        bucket: text_or_empty(config.bucket),
        prefix: text_or_empty(config.prefix),
        public_base_url: ""@,
        sample_tile_url: None,
        failures: seq![FailureView { file_path: output_dir, error }],
    }
}

/// The error is that of a cancelled upload.
pub open spec fn is_cancel_error(e: Seq<char>) -> bool {
    has_text(e, "上传已被取消"@)
}

/// What the outcome of sending means for the job. A cancelled upload fails it. Another error fails
/// it only where the request says so; else the job goes on with a summary that tells of the error.
pub open spec fn upload_verdict(
    config: OssUploadConfig,
    output_dir: Seq<char>,
    sent: Result<OssUploadSummary, String>,
) -> Result<Option<SummaryView>, Seq<char>> {
    match sent {
        Ok(s) => Ok(Some(s@)),
        Err(e) => if is_cancel_error(e@) {
            Err(e@)
        } else if config.fail_task_on_error {
            Err("OSS 上传失败且配置为强失败: "@ + e@)
        } else {
            Ok(Some(failed_summary(config, output_dir, e@)))
        },
    }
}

/// The request asks for an upload.
pub open spec fn upload_wanted(req: TileJobRequest) -> bool {
    req.upload_config matches Some(config) && config.enabled
}

/// The course of an upload that is wanted: the batch gets its name, the begin is reported, the
/// tiles are sent, the outcome is reported and weighed.
pub open spec fn wanted_step(
    req: TileJobRequest,
    config: OssUploadConfig,
    env: OssEnvironment,
    facts: UploadFacts,
) -> UploadStepView {
    match facts.run_id {
        None => UploadStepView::NameBatch,
        Some(Err(e)) => UploadStepView::Done(Err(e@)),
        Some(Ok(id)) => match facts.prepared {
            None => UploadStepView::Prepare(prepare_event(req.job_id@, config, env, id@)),
            Some(Err(e)) => UploadStepView::Done(Err(emit_error(e@))),
            Some(Ok(_)) => match facts.sent {
                None => UploadStepView::Send(id@),
                Some(sent) => match facts.reported {
                    None => UploadStepView::Report(upload_done_event(req.job_id@, sent)),
                    Some(Err(e)) => UploadStepView::Done(Err(emit_error(e@))),
                    Some(Ok(_)) => UploadStepView::Done(
                        upload_verdict(config, req.output_dir@, sent),
                    ),
                },
            },
        },
    }
}

/// What is to be done next for the upload of a job: nothing where the request asks for none.
pub open spec fn upload_step(
    req: TileJobRequest,
    env: OssEnvironment,
    facts: UploadFacts,
) -> UploadStepView {
    match req.upload_config {
        Some(config) => if config.enabled {
            wanted_step(req, config, env, facts)
        } else {
            UploadStepView::Done(Ok(None))
        },
        None => UploadStepView::Done(Ok(None)),
    }
}

/// A copy of a summary.
pub fn copy_summary(s: &OssUploadSummary) -> (r: OssUploadSummary)
    ensures
        r@ == s@,
{
    let mut failures: Vec<UploadFailure> = Vec::new();
    let mut i: usize = 0;
    assert(failure_views(failures@) =~= failure_views(s.failures@).take(0));
    while i < s.failures.len()
        invariant
            i <= s.failures@.len(),
            failure_views(failures@) == failure_views(s.failures@).take(i as int),
        decreases s.failures@.len() - i,
    {
        let ghost before = failure_views(failures@);
        let failure = UploadFailure {
            file_path: s.failures[i].file_path.clone(),
            error: s.failures[i].error.clone(),
        };
        let ghost view = failure@;
        failures.push(failure);
        assert(failure_views(failures@) =~= before.push(view));
        assert(failure_views(s.failures@).take(i + 1) =~= before.push(view));
        i += 1;
    }
    assert(failure_views(s.failures@).take(i as int) =~= failure_views(s.failures@));
    OssUploadSummary {
        uploaded_count: s.uploaded_count,
        failed_count: s.failed_count,
        bucket: s.bucket.clone(),
        prefix: s.prefix.clone(),
        public_base_url: s.public_base_url.clone(),
        sample_tile_url: copy_opt(&s.sample_tile_url),
        failures,
    }
}

fn done_event(job_id: &str, sent: &Result<OssUploadSummary, String>) -> (r: ProgressEvent)
    ensures
        r@ == upload_done_event(job_id@, *sent),
{
    match sent {
        Ok(s) => {
            let level = if s.failed_count == 0 {
                "success"
            } else {
                "warn"
            };
            let uploaded = decimal_text(s.uploaded_count as u128);
            let failed = decimal_text(s.failed_count as u128);
            let message = concat4(
                "OSS 上传完成：成功 ",
                uploaded.as_str(),
                "，失败 ",
                failed.as_str(),
            );
            ProgressEvent::new(job_id, "upload_done", level, message.as_str(), 99)
        },
        Err(e) => {
            let message = concat2("OSS 上传失败: ", e.as_str());
            ProgressEvent::new(job_id, "upload_done", "warn", message.as_str(), 99)
        },
    }
}

/// What the outcome of sending means for the job.
pub fn judge_upload(
    config: &OssUploadConfig,
    output_dir: &str,
    sent: &Result<OssUploadSummary, String>,
) -> (r: Result<Option<OssUploadSummary>, String>)
    ensures
        outcome_view(r) == upload_verdict(*config, output_dir@, *sent),
{
    match sent {
        Ok(s) => Ok(Some(copy_summary(s))),
        Err(e) => {
            if contains(e.as_str(), "上传已被取消") {
                return Err(e.clone());
            }
            if config.fail_task_on_error {
                return Err(concat2("OSS 上传失败且配置为强失败: ", e.as_str()));
            }
            let bucket = match &config.bucket {
                Some(b) => b.clone(),
                None => "".to_string(),
            };
            let prefix = match &config.prefix {
                Some(p) => p.clone(),
                None => "".to_string(),
            };
            let mut failures: Vec<UploadFailure> = Vec::new();
            failures.push(
                UploadFailure { file_path: output_dir.to_string(), error: e.clone() },
            );
            assert(failure_views(failures@) =~= seq![
                FailureView { file_path: output_dir@, error: e@ },
            ]);
            Ok(
                Some(
                    OssUploadSummary {
                        uploaded_count: 0,
                        failed_count: 1,
                        bucket,
                        prefix,
                        public_base_url: "".to_string(),
                        sample_tile_url: None,
                        failures,
                    },
                ),
            )
        },
    }
}

fn begin_event(job_id: &str, config: &OssUploadConfig, env: &OssEnvironment, run_id: &str) -> (r:
    ProgressEvent)
    ensures
        r@ == prepare_event(job_id@, *config, *env, run_id@),
{
    let message = match upload_root_prefix_preview(config, env, run_id) {
        Ok(url) => concat2("切图完成，准备上传 OSS。对象根路径（PUT 前缀）: ", url.as_str()),
        Err(_) => "切图完成，准备上传 OSS（尚未解析根路径，若缺密钥将在随后失败）".to_string(),
    };
    ProgressEvent::new(job_id, "upload_prepare", "info", message.as_str(), 90)
}

/// What is to be done next for the upload of the tiles of a job.
pub fn maybe_upload_tiles(req: &TileJobRequest, env: &OssEnvironment, facts: &UploadFacts) -> (r:
    UploadStep)
    ensures
        r@ == upload_step(*req, *env, *facts),
{
    let config = match &req.upload_config {
        None => {
            return UploadStep::Done(Ok(None));
        },
        Some(config) => config,
    };
    if !config.enabled {
        return UploadStep::Done(Ok(None));
    }
    let job_id = req.job_id.as_str();
    match &facts.run_id {
        None => UploadStep::NameBatch,
        Some(Err(e)) => UploadStep::Done(Err(e.clone())),
        Some(Ok(id)) => match &facts.prepared {
            None => UploadStep::Prepare(begin_event(job_id, config, env, id.as_str())),
            Some(Err(e)) => UploadStep::Done(Err(emit_failure(e.as_str()))),
            Some(Ok(_)) => match &facts.sent {
                None => UploadStep::Send(id.clone()),
                Some(sent) => match &facts.reported {
                    None => UploadStep::Report(done_event(job_id, sent)),
                    Some(Err(e)) => UploadStep::Done(Err(emit_failure(e.as_str()))),
                    Some(Ok(_)) => UploadStep::Done(
                        judge_upload(config, req.output_dir.as_str(), sent),
                    ),
                },
            },
        },
    }
}

// Progress.

/// How many ninths of the files have been sent, rounded to the nearest number, halves upwards; all
/// of them where there are none to send.
pub open spec fn ninths_sent(done: int, total: int) -> int {
    if total == 0 || done > total {
        9
    } else {
        (18 * done + total) / (2 * total)
    }
}

proof fn lemma_ninths(done: int, total: int)
    requires
        0 <= done,
        0 <= total,
    ensures
        0 <= ninths_sent(done, total) <= 9,
{
    if 0 < total && done <= total {
        assert((18 * done + total) / (2 * total) >= 0) by (nonlinear_arith)
            requires
                0 <= done,
                0 < total,
        ;
        assert((18 * done + total) / (2 * total) <= 9) by (nonlinear_arith)
            requires
                0 <= done <= total,
                0 < total,
        ;
    }
}

/// How many ninths of the files have been sent.
pub fn ninths_done(done: usize, total: usize) -> (r: u8)
    ensures
        r == ninths_sent(done as int, total as int),
        total > 0 && done <= total ==> r == (18 * done + total) / (2 * total),
        r <= 9,
{
    proof {
        lemma_ninths(done as int, total as int);
    }
    if total == 0 || done > total {
        9
    } else {
        let d: u128 = done as u128;
        let t: u128 = total as u128;
        ((18 * d + t) / (2 * t)) as u8
    }
}

/// The progress of a job while it sends its tiles: from 90 on, and never more than 99, so that 100
/// is left for its end.
pub open spec fn upload_percent(done: int, total: int) -> int {
    90 + ninths_sent(done, total)
}

/// The report of the progress of sending.
pub fn upload_progress(job_id: &str, done: usize, total: usize) -> (r: ProgressEvent)
    ensures
        r@ == event(
            job_id@,
            "uploading"@,
            "info"@,
            "OSS 上传进度: "@ + decimal(done as nat) + "/"@ + decimal(total as nat),
            upload_percent(done as int, total as int),
        ),
{
    let percent: u8 = 90 + ninths_done(done, total);
    let sent = decimal_text(done as u128);
    let all = decimal_text(total as u128);
    let message = concat4("OSS 上传进度: ", sent.as_str(), "/", all.as_str());
    ProgressEvent::new(job_id, "uploading", "info", message.as_str(), percent)
}

// Laws.

/// The progress of sending lies between 90 and 99, so that 100 is left for the end of the job.
pub proof fn sending_stays_between_90_and_99(done: int, total: int)
    requires
        0 <= done,
        0 <= total,
    ensures
        90 <= upload_percent(done, total) <= 99,
{
    lemma_ninths(done, total);
}

/// The progress of sending never falls, and all files sent make it 99.
pub proof fn progress_of_sending_never_falls(fewer: int, more: int, total: int)
    requires
        0 <= fewer <= more,
        0 <= total,
    ensures
        upload_percent(fewer, total) <= upload_percent(more, total),
        upload_percent(total, total) == 99,
{
    if 0 < total {
        assert((18 * total + total) / (2 * total) == 9) by (nonlinear_arith)
            requires
                0 < total,
        ;
        if more <= total {
            vstd::arithmetic::div_mod::lemma_div_is_ordered(
                18 * fewer + total,
                18 * more + total,
                2 * total,
            );
        } else {
            lemma_ninths(fewer, total);
        }
    }
}

/// A job whose request asks for no upload takes no step towards one and goes on without a summary.
pub proof fn no_upload_without_request(
    req: TileJobRequest,
    env: OssEnvironment,
    facts: UploadFacts,
)
    requires
        !upload_wanted(req),
    ensures
        upload_step(req, env, facts) == UploadStepView::Done(Ok(None)),
{
}

/// A cancelled upload fails the job, with the error of the upload, whatever the request says of
/// errors.
pub proof fn cancelled_upload_fails_the_job(
    config: OssUploadConfig,
    output_dir: Seq<char>,
    sent: Result<OssUploadSummary, String>,
)
    requires
        sent matches Err(e) && e@ == "OSS 上传已被取消"@,
    ensures
        upload_verdict(config, output_dir, sent) == Err::<Option<SummaryView>, Seq<char>>(
            "OSS 上传已被取消"@,
        ),
{
    reveal_strlit("OSS 上传已被取消");
    reveal_strlit("上传已被取消");
    let e = "OSS 上传已被取消"@;
    assert(e.subrange(4, 10) =~= "上传已被取消"@);
    assert(text_at(e, "上传已被取消"@, 4));
}

/// An upload that was not cancelled fails the job only where the request says so.
pub proof fn failed_upload_is_tolerated(
    config: OssUploadConfig,
    output_dir: Seq<char>,
    sent: Result<OssUploadSummary, String>,
)
    requires
        !config.fail_task_on_error,
        sent matches Err(e) ==> !is_cancel_error(e@),
    ensures
        upload_verdict(config, output_dir, sent) matches Ok(Some(s)) && (sent is Err ==> s.failed_count
            == 1 && s.failures.len() == 1 && s.uploaded_count == 0),
{
}

/// How many things are still to be found out for an upload.
pub open spec fn facts_missing(f: UploadFacts) -> int {
    (if f.run_id is None {
        1int
    } else {
        0
    }) + (if f.prepared is None {
        1int
    } else {
        0
    }) + (if f.sent is None {
        1int
    } else {
        0
    }) + (if f.reported is None {
        1int
    } else {
        0
    })
}

/// An upload is over after four steps at most: each step finds out one thing that was not known.
pub proof fn upload_is_over_in_four_steps(
    req: TileJobRequest,
    env: OssEnvironment,
    f: UploadFacts,
    g: UploadFacts,
)
    requires
        match upload_step(req, env, f) {
            UploadStepView::NameBatch => g.run_id is Some && g == (UploadFacts {
                run_id: g.run_id,
                ..f
            }),
            UploadStepView::Prepare(_) => g.prepared is Some && g == (UploadFacts {
                prepared: g.prepared,
                ..f
            }),
            UploadStepView::Send(_) => g.sent is Some && g == (UploadFacts { sent: g.sent, ..f }),
            UploadStepView::Report(_) => g.reported is Some && g == (UploadFacts {
                reported: g.reported,
                ..f
            }),
            UploadStepView::Done(_) => false,
        },
    ensures
        0 <= facts_missing(g) < facts_missing(f) <= 4,
{
}

/// The progress of sending is the nearest whole percent on the way from 90 to 99: for `done` of
/// `total` files it is 90 and as many ninths as come closest to their share.
pub proof fn progress_of_sending_is_the_nearest(done: int, total: int)
    requires
        0 <= done <= total,
        0 < total,
    ensures
        ({
            let ninths = upload_percent(done, total) - 90;
            &&& 2 * (ninths * total) <= 18 * done + total
            &&& 18 * done + total < 2 * (ninths * total) + 2 * total
        }),
        upload_percent(0, total) == 90,
        upload_percent(total, total) == 99,
{
    let n = 18 * done + total;
    let q = n / (2 * total);
    assert(q * (2 * total) <= n < q * (2 * total) + 2 * total) by (nonlinear_arith)
        requires
            q == n / (2 * total),
            0 < total,
    ;
    assert(q * (2 * total) == 2 * (q * total)) by (nonlinear_arith);
    assert(total / (2 * total) == 0) by (nonlinear_arith)
        requires
            0 < total,
    ;
    progress_of_sending_never_falls(0, done, total);
}

/// The course of an upload: the batch is named, its begin is reported, the tiles are sent under the
/// name of the batch, what came of it is reported, and then it is weighed. Each step waits for the
/// one before; a name that could not be found and a report that could not be sent end it.
pub proof fn course_of_an_upload(req: TileJobRequest, env: OssEnvironment, facts: UploadFacts)
    requires
        req.upload_config matches Some(config) && config.enabled,
    ensures
        match facts.run_id {
            None => upload_step(req, env, facts) == UploadStepView::NameBatch,
            Some(Err(e)) => upload_step(req, env, facts) == UploadStepView::Done(Err(e@)),
            Some(Ok(id)) => match facts.prepared {
                None => upload_step(req, env, facts) is Prepare,
                Some(Err(e)) => upload_step(req, env, facts) == UploadStepView::Done(
                    Err("发送进度事件失败: "@ + e@),
                ),
                Some(Ok(_)) => match facts.sent {
                    None => upload_step(req, env, facts) == UploadStepView::Send(id@),
                    Some(_) => match facts.reported {
                        None => upload_step(req, env, facts) is Report,
                        Some(Err(e)) => upload_step(req, env, facts) == UploadStepView::Done(
                            Err("发送进度事件失败: "@ + e@),
                        ),
                        Some(Ok(_)) => upload_step(req, env, facts) is Done,
                    },
                },
            },
        },
{
}

/// The begin of an upload is reported at 90 percent. The report shows the URL below which the tiles
/// will lie, unless a credential is missing; then it says so.
pub proof fn begin_of_an_upload_is_reported(
    req: TileJobRequest,
    env: OssEnvironment,
    facts: UploadFacts,
    config: OssUploadConfig,
    id: String,
)
    requires
        req.upload_config == Some(config),
        config.enabled,
        facts.run_id == Some(Ok::<String, String>(id)),
        facts.prepared is None,
    ensures
        upload_step(req, env, facts) matches UploadStepView::Prepare(e) && e.job_id == req.job_id@
            && e.stage == "upload_prepare"@ && e.level == "info"@ && e.percent == 90 && e.message
            == match root_preview(config, env, id@) {
            Ok(url) => "切图完成，准备上传 OSS。对象根路径（PUT 前缀）: "@ + url,
            Err(_) => "切图完成，准备上传 OSS（尚未解析根路径，若缺密钥将在随后失败）"@,
        },
{
}

/// The end of an upload is reported at 99 percent: as a success exactly where everything was sent,
/// with the numbers of files that were sent and that failed, or with the error of the upload.
pub proof fn end_of_an_upload_is_reported(
    job_id: Seq<char>,
    sent: Result<OssUploadSummary, String>,
)
    ensures
        ({
            let e = upload_done_event(job_id, sent);
            &&& e.job_id == job_id
            &&& e.stage == "upload_done"@
            &&& e.percent == 99
            &&& e.level == "success"@ <==> (sent matches Ok(s) && s.failed_count == 0)
            &&& e.level == "success"@ || e.level == "warn"@
            &&& sent matches Ok(s) ==> e.message == "OSS 上传完成：成功 "@ + decimal(
                s.uploaded_count as nat,
            ) + "，失败 "@ + decimal(s.failed_count as nat)
            &&& sent matches Err(err) ==> e.message == "OSS 上传失败: "@ + err@
        }),
{
    reveal_strlit("success");
    reveal_strlit("warn");
    assert("success"@.len() != "warn"@.len());
}

/// What an upload means for its job: whatever was sent is told as it is, also where files failed. An
/// upload that failed as a whole fails the job where the request says so; else it is told as one
/// failure, of the output directory, with its error.
pub proof fn verdict_on_an_upload(
    config: OssUploadConfig,
    output_dir: Seq<char>,
    summary: OssUploadSummary,
    error: String,
)
    ensures
        upload_verdict(config, output_dir, Ok(summary)) == Ok::<Option<SummaryView>, Seq<char>>(
            Some(summary@),
        ),
        has_text(error@, "上传已被取消"@) ==> upload_verdict(config, output_dir, Err(error))
            == Err::<Option<SummaryView>, Seq<char>>(error@),
        !has_text(error@, "上传已被取消"@) && config.fail_task_on_error ==> upload_verdict(
            config,
            output_dir,
            Err(error),
        ) == Err::<Option<SummaryView>, Seq<char>>("OSS 上传失败且配置为强失败: "@ + error@),
        !has_text(error@, "上传已被取消"@) && !config.fail_task_on_error ==> (upload_verdict(
            config,
            output_dir,
            Err(error),
        ) matches Ok(Some(s)) && s.uploaded_count == 0 && s.failed_count == 1 && s.failures.len()
            == 1 && s.failures[0].file_path == output_dir && s.failures[0].error == error@
            && s.sample_tile_url is None && s.public_base_url.len() == 0 && (
        config.bucket matches Some(b) ==> s.bucket == b@) && (config.bucket is None
            ==> s.bucket.len() == 0) && (config.prefix matches Some(p) ==> s.prefix == p@) && (
        config.prefix is None ==> s.prefix.len() == 0)),
{
    reveal_strlit("");
}

/// The progress of sending is told with the numbers of files that were sent and that there are.
pub proof fn progress_of_sending_is_told(job_id: &str, done: usize, total: usize, r: ProgressEvent)
    requires
        call_ensures(upload_progress, (job_id, done, total), r),
    ensures
        r.job_id@ == job_id@,
        r.stage@ == "uploading"@,
        r.level@ == "info"@,
        r.message@ == "OSS 上传进度: "@ + decimal(done as nat) + "/"@ + decimal(total as nat),
        90 <= r.percent <= 99,
        0 < total && done <= total ==> r.percent == 90 + (18 * done + total) / (2 * total),
        total == 0 ==> r.percent == 99,
{
    sending_stays_between_90_and_99(done as int, total as int);
}

/// A request without settings for an upload, or with settings that are switched off, uploads nothing
/// and takes no step towards it.
pub proof fn uploads_are_off_unless_switched_on(
    req: TileJobRequest,
    env: OssEnvironment,
    facts: UploadFacts,
)
    ensures
        req.upload_config is None ==> upload_step(req, env, facts) == UploadStepView::Done(Ok(None)),
        req.upload_config matches Some(config) ==> (!config.enabled ==> upload_step(req, env, facts)
            == UploadStepView::Done(Ok(None))),
        upload_wanted(req) <==> (req.upload_config matches Some(config) && config.enabled),
{
}

} // verus!
