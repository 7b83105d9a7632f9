//! One stage of a job: its tool is started, its output is reported, and its end is awaited.

use crate::numbers::signed_decimal;
use crate::numbers::signed_text;
use crate::progress_event::event;
use crate::progress_event::parse_progress_percent;
use crate::progress_event::progress_of_line;
use crate::progress_event::EventView;
use crate::progress_event::ProgressEvent;
use crate::text::concat2;
use crate::text::concat3;
use crate::text::concat4;
use crate::tile_stages::StageSpec;
use crate::tile_stages::StageView;
use vstd::prelude::*;

verus! {

/// The end of a process: whether it succeeded, and its exit code where it has one.
#[derive(Debug, Clone, Copy)]
pub struct ProcessExit {
    pub success: bool,
    pub code: Option<i32>,
}

/// What has happened to a stage. Each event but the first answers an action.
#[derive(Debug)]
pub enum StageEvent {
    /// The stage is up; the job may be cancelled already.
    Begun { cancelled: bool },
    /// The start was reported, or could not be.
    Announced(Result<(), String>),
    /// The tool was started, as a process with this number, or could not be.
    Spawned(Result<u32, String>),
    /// Which outputs of the process can be read.
    Attached { stdout: bool, stderr: bool },
    /// The process has put out a line.
    Line { from_stderr: bool, line: String },
    /// The line was reported, or could not be.
    Logged(Result<(), String>),
    /// The process has put out no line since; the job may be cancelled by now.
    Quiet { cancelled: bool },
    /// The process has ended, goes on, or cannot be asked.
    Polled(Result<Option<ProcessExit>, String>),
    /// The pause is over.
    Rested,
    /// The process was told to end, and its number is forgotten.
    Killed,
    /// The number of the process is forgotten.
    Forgotten(ProcessExit),
    /// The end was reported, or could not be.
    Reported(Result<(), String>),
}

/// What is to be done for a stage.
#[derive(Debug)]
pub enum StageAction {
    /// Report the start.
    Announce(ProgressEvent),
    /// Start the tool.
    Spawn,
    /// Remember the number of the process, and read its outputs.
    Attach(u32),
    /// See whether the process has put out a line.
    Listen,
    /// Report a line.
    Log(ProgressEvent),
    /// See whether the process has ended.
    Poll,
    /// Pause for so many milliseconds.
    Rest(u64),
    /// Tell the process to end, and forget its number.
    Kill,
    /// Forget the number of the process.
    Forget(ProcessExit),
    /// Report the end.
    Report(ProgressEvent),
    /// The stage is over.
    Finish(Result<(), String>),
}

/// The content of a [`StageAction`].
pub ghost enum ActionView {
    Announce(EventView),
    Spawn,
    Attach(u32),
    Listen,
    Log(EventView),
    Poll,
    Rest(u64),
    Kill,
    Forget(ProcessExit),
    Report(EventView),
    Finish(Result<(), Seq<char>>),
}

impl View for StageAction {
    type V = ActionView;

    open spec fn view(&self) -> ActionView {
        match *self {
            StageAction::Announce(e) => ActionView::Announce(e@),
            StageAction::Spawn => ActionView::Spawn,
            StageAction::Attach(pid) => ActionView::Attach(pid),
            StageAction::Listen => ActionView::Listen,
            StageAction::Log(e) => ActionView::Log(e@),
            StageAction::Poll => ActionView::Poll,
            StageAction::Rest(millis) => ActionView::Rest(millis),
            StageAction::Kill => ActionView::Kill,
            StageAction::Forget(exit) => ActionView::Forget(exit),
            StageAction::Report(e) => ActionView::Report(e@),
            StageAction::Finish(Ok(_)) => ActionView::Finish(Ok(())),
            StageAction::Finish(Err(e)) => ActionView::Finish(Err(e@)),
        }
    }
}

/// The sum of two numbers below 256, or 255 where that is less.
pub open spec fn saturating(a: int, b: int) -> int {
    if a + b > 255 {
        255
    } else {
        a + b
    }
}

/// The progress of the job for a line of a stage: the share of the stage that the line tells of, on
/// top of its start; the start itself where the line tells of none. The share is cut off to eight
/// bits.
pub open spec fn line_percent(start: u8, span: u8, line: Seq<char>) -> int {
    match progress_of_line(line) {
        Some(p) => saturating(start as int, (span as int * p as int / 100) % 256),
        None => start as int,
    }
}

/// The report of a line: a warning where it comes from the error output.
pub open spec fn line_event(
    job_id: Seq<char>,
    spec: StageView,
    from_stderr: bool,
    line: Seq<char>,
) -> EventView {
    event(
        job_id,
        spec.stage,
        if from_stderr {
            "warn"@
        } else {
            "info"@
        },
        line,
        line_percent(spec.progress_start, spec.progress_span, line),
    )
}

/// An exit code in an error message.
pub open spec fn code_text(code: Option<i32>) -> Seq<char> {
    match code {
        Some(n) => "Some("@ + signed_decimal(n as int) + ")"@,
        None => "None"@,
    }
}

/// The error of a report that could not be sent.
pub open spec fn emit_error(e: Seq<char>) -> Seq<char> {
    "发送进度事件失败: "@ + e
}

/// What is to be done for a stage of a job, when something has happened to it.
pub open spec fn stage_turn(job_id: Seq<char>, spec: StageView, e: StageEvent) -> ActionView {
    let name = spec.stage;
    match e {
        StageEvent::Begun { cancelled } => if cancelled {
            ActionView::Finish(Err("任务已取消"@))
        } else {
            ActionView::Announce(
                event(job_id, name, "info"@, "开始阶段 "@ + name, spec.progress_start as int),
            )
        },
        StageEvent::Announced(Ok(_)) => ActionView::Spawn,
        StageEvent::Announced(Err(err)) => ActionView::Finish(Err(emit_error(err@))),
        StageEvent::Spawned(Ok(pid)) => ActionView::Attach(pid),
        StageEvent::Spawned(Err(err)) => ActionView::Finish(
            Err("阶段 "@ + name + " 启动失败: "@ + err@),
        ),
        StageEvent::Attached { stdout, stderr } => if !stdout {
            ActionView::Finish(Err("无法读取 stdout"@))
        } else if !stderr {
            ActionView::Finish(Err("无法读取 stderr"@))
        } else {
            ActionView::Listen
        },
        StageEvent::Line { from_stderr, line } => ActionView::Log(
            line_event(job_id, spec, from_stderr, line@),
        ),
        StageEvent::Logged(Ok(_)) => ActionView::Listen,
        StageEvent::Logged(Err(err)) => ActionView::Finish(Err(emit_error(err@))),
        StageEvent::Quiet { cancelled } => if cancelled {
            ActionView::Kill
        } else {
            ActionView::Poll
        },
        StageEvent::Polled(Ok(Some(exit))) => ActionView::Forget(exit),
        StageEvent::Polled(Ok(None)) => ActionView::Rest(120),
        StageEvent::Polled(Err(err)) => ActionView::Finish(
            Err("阶段 "@ + name + " 状态检查失败: "@ + err@),
        ),
        StageEvent::Rested => ActionView::Listen,
        StageEvent::Killed => ActionView::Finish(Err("任务已取消"@)),
        StageEvent::Forgotten(exit) => if exit.success {
            ActionView::Report(
                event(
                    job_id,
                    name,
                    "success"@,
                    "阶段 "@ + name + " 完成"@,
                    saturating(spec.progress_start as int, spec.progress_span as int),
                ),
            )
        } else {
            ActionView::Finish(
                Err("阶段 "@ + name + " 执行失败，退出码: "@ + code_text(exit.code)),
            )
        },
        StageEvent::Reported(Ok(_)) => ActionView::Finish(Ok(())),
        StageEvent::Reported(Err(err)) => ActionView::Finish(Err(emit_error(err@))),
    }
}

/// The error of a report that could not be sent.
pub fn emit_failure(err: &str) -> (r: String)
    ensures
        r@ == emit_error(err@),
{
    concat2("发送进度事件失败: ", err)
}

/// The progress of the job for a line of a stage.
pub fn percent_of_line(start: u8, span: u8, line: &str) -> (r: u8)
    ensures
        r == line_percent(start, span, line@),
{
    match parse_progress_percent(line) {
        Some(p) => {
            assert(0 <= span as int * p as int <= 255 * 255) by (nonlinear_arith)
                requires
                    0 <= span <= 255,
                    0 <= p <= 255,
            ;
            let share: u16 = span as u16 * p as u16 / 100;
            let part: u8 = #[verifier::truncate]
            (share as u8);
            assert((share as u8) == share % 256) by (bit_vector);
            start.saturating_add(part)
        },
        None => start,
    }
}

fn exit_code_text(code: Option<i32>) -> (r: String)
    ensures
        r@ == code_text(code),
{
    match code {
        Some(n) => {
            let number = signed_text(n);
            concat3("Some(", number.as_str(), ")")
        },
        None => "None".to_string(),
    }
}

/// The report of a line that the tool of a stage has put out.
pub fn report_line(job_id: &str, spec: &StageSpec, from_stderr: bool, line: &str) -> (r:
    ProgressEvent)
    ensures
        r@ == line_event(job_id@, spec@, from_stderr, line@),
{
    let level = if from_stderr {
        "warn"
    } else {
        "info"
    };
    let percent: u8 = percent_of_line(spec.progress_start, spec.progress_span, line);
    ProgressEvent::new(job_id, spec.stage.as_str(), level, line, percent)
}

fn finish_with(message: String) -> (r: StageAction)
    ensures
        r@ == ActionView::Finish(Err(message@)),
{
    StageAction::Finish(Err(message))
}

/// What is to be done for a stage of a job, when something has happened to it.
pub fn run_stage(job_id: &str, spec: &StageSpec, e: &StageEvent) -> (r: StageAction)
    ensures
        r@ == stage_turn(job_id@, spec@, *e),
{
    let name = spec.stage.as_str();
    match e {
        StageEvent::Begun { cancelled } => {
            if *cancelled {
                return finish_with("任务已取消".to_string());
            }
            let message = concat2("开始阶段 ", name);
            StageAction::Announce(
                ProgressEvent::new(job_id, name, "info", message.as_str(), spec.progress_start),
            )
        },
        StageEvent::Announced(Ok(_)) => StageAction::Spawn,
        StageEvent::Announced(Err(err)) => finish_with(emit_failure(err.as_str())),
        StageEvent::Spawned(Ok(pid)) => StageAction::Attach(*pid),
        StageEvent::Spawned(Err(err)) => finish_with(
            concat4("阶段 ", name, " 启动失败: ", err.as_str()),
        ),
        StageEvent::Attached { stdout, stderr } => {
            if !*stdout {
                return finish_with("无法读取 stdout".to_string());
            }
            if !*stderr {
                return finish_with("无法读取 stderr".to_string());
            }
            StageAction::Listen
        },
        StageEvent::Line { from_stderr, line } => StageAction::Log(
            report_line(job_id, spec, *from_stderr, line.as_str()),
        ),
        StageEvent::Logged(Ok(_)) => StageAction::Listen,
        StageEvent::Logged(Err(err)) => finish_with(emit_failure(err.as_str())),
        StageEvent::Quiet { cancelled } => if *cancelled {
            StageAction::Kill
        } else {
            StageAction::Poll
        },
        StageEvent::Polled(Ok(Some(exit))) => StageAction::Forget(*exit),
        StageEvent::Polled(Ok(None)) => StageAction::Rest(120),
        StageEvent::Polled(Err(err)) => finish_with(
            concat4("阶段 ", name, " 状态检查失败: ", err.as_str()),
        ),
        StageEvent::Rested => StageAction::Listen,
        StageEvent::Killed => finish_with("任务已取消".to_string()),
        StageEvent::Forgotten(exit) => {
            if exit.success {
                let message = concat3("阶段 ", name, " 完成");
                let percent: u8 = spec.progress_start.saturating_add(spec.progress_span);
                return StageAction::Report(
                    ProgressEvent::new(job_id, name, "success", message.as_str(), percent),
                );
            }
            let code = exit_code_text(exit.code);
            finish_with(concat4("阶段 ", name, " 执行失败，退出码: ", code.as_str()))
        },
        StageEvent::Reported(Ok(_)) => StageAction::Finish(Ok(())),
        StageEvent::Reported(Err(err)) => finish_with(emit_failure(err.as_str())),
    }
}

// Laws.

/// The event answers the action.
pub open spec fn answers(a: ActionView, e: StageEvent) -> bool {
    match a {
        ActionView::Announce(_) => e is Announced,
        ActionView::Spawn => e is Spawned,
        ActionView::Attach(_) => e is Attached,
        ActionView::Listen => e is Line || e is Quiet,
        ActionView::Log(_) => e is Logged,
        ActionView::Poll => e is Polled,
        ActionView::Rest(_) => e is Rested,
        ActionView::Kill => e is Killed,
        ActionView::Forget(exit) => e == StageEvent::Forgotten(exit),
        ActionView::Report(_) => e is Reported,
        ActionView::Finish(_) => false,
    }
}

/// The events are those of a stage from its begin on, each an answer to what was to be done before.
pub open spec fn is_run(job_id: Seq<char>, spec: StageView, events: Seq<StageEvent>) -> bool {
    &&& events.len() > 0
    &&& events[0] is Begun
    &&& forall|i: int|
        0 < i < events.len() ==> answers(
            stage_turn(job_id, spec, events[i - 1]),
            #[trigger] events[i],
        )
}

proof fn lemma_has_spawned(job_id: Seq<char>, spec: StageView, events: Seq<StageEvent>)
    requires
        is_run(job_id, spec, events),
        !(events.last() is Begun || events.last() is Announced || events.last() is Spawned),
    ensures
        exists|i: int|
            0 < i < events.len() - 1 && (#[trigger] events[i]) matches StageEvent::Spawned(Ok(_)),
    decreases events.len(),
{
    let n = events.len() as int;
    assert(answers(stage_turn(job_id, spec, events[n - 2]), events[n - 1]));
    if !(events[n - 2] is Spawned) {
        let before = events.drop_last();
        assert(forall|i: int| 0 <= i < n - 1 ==> before[i] == events[i]);
        assert(is_run(job_id, spec, before)) by {
            assert forall|i: int| 0 < i < before.len() implies answers(
                stage_turn(job_id, spec, before[i - 1]),
                #[trigger] before[i],
            ) by {
                assert(answers(stage_turn(job_id, spec, events[i - 1]), events[i]));
            }
        }
        lemma_has_spawned(job_id, spec, before);
        let i = choose|i: int|
            0 < i < before.len() - 1 && (#[trigger] before[i]) matches StageEvent::Spawned(Ok(_));
        assert(events[i] == before[i]);
    }
}

/// A stage succeeds only when its tool was started and has ended with success.
pub proof fn success_means_the_tool_succeeded(
    job_id: Seq<char>,
    spec: StageView,
    events: Seq<StageEvent>,
)
    requires
        is_run(job_id, spec, events),
        stage_turn(job_id, spec, events.last()) == ActionView::Finish(Ok(())),
    ensures
        exists|i: int|
            0 < i < events.len() && (#[trigger] events[i]) matches StageEvent::Spawned(Ok(_)),
        exists|i: int|
            0 < i < events.len() && ((#[trigger] events[i]) matches StageEvent::Polled(
                Ok(Some(exit)),
            ) && exit.success),
{
    let n = events.len() as int;
    lemma_has_spawned(job_id, spec, events);
    assert(answers(stage_turn(job_id, spec, events[n - 2]), events[n - 1]));
    assert(events[n - 2] is Forgotten);
    assert(answers(stage_turn(job_id, spec, events[n - 3]), events[n - 2]));
    assert(events[n - 3] is Polled);
    assert(n - 3 > 0);
}

/// A stage of a job that is cancelled already never starts its tool: it is over at once, with the
/// error of a cancelled job.
pub proof fn cancelled_job_starts_no_tool(
    job_id: Seq<char>,
    spec: StageView,
    events: Seq<StageEvent>,
)
    requires
        is_run(job_id, spec, events),
        events[0] == (StageEvent::Begun { cancelled: true }),
    ensures
        events.len() == 1,
        stage_turn(job_id, spec, events[0]) == ActionView::Finish(Err("任务已取消"@)),
{
    if events.len() > 1 {
        assert(answers(stage_turn(job_id, spec, events[0]), events[1]));
    }
}

/// When a job is cancelled while a tool runs, the tool is told to end, and the stage is over with
/// the error of a cancelled job.
pub proof fn cancelled_stage_is_killed(
    job_id: Seq<char>,
    spec: StageView,
    events: Seq<StageEvent>,
    i: int,
)
    requires
        is_run(job_id, spec, events),
        0 <= i < events.len(),
        events[i] == (StageEvent::Quiet { cancelled: true }),
    ensures
        stage_turn(job_id, spec, events[i]) == ActionView::Kill,
        events.len() <= i + 2,
        events.len() == i + 2 ==> stage_turn(job_id, spec, events.last()) == ActionView::Finish(
            Err("任务已取消"@),
        ),
{
    if events.len() > i + 1 {
        assert(answers(stage_turn(job_id, spec, events[i]), events[i + 1]));
    }
    if events.len() > i + 2 {
        assert(answers(stage_turn(job_id, spec, events[i + 1]), events[i + 2]));
    }
}

/// What a stage reports stays within its share of the progress, as long as the tool tells of no
/// more than 100 percent.
pub proof fn progress_stays_within_the_stage(start: u8, span: u8, line: Seq<char>)
    requires
        start + span <= 100,
        progress_of_line(line) matches Some(p) ==> p <= 100,
    ensures
        start <= line_percent(start, span, line) <= start + span,
{
    if let Some(p) = progress_of_line(line) {
        let product = span as int * p as int;
        assert(0 <= product <= span as int * 100) by (nonlinear_arith)
            requires
                product == span as int * p as int,
                0 <= p <= 100,
                0 <= span,
        ;
        assert(0 <= product / 100 <= span as int);
    }
}

/// No report of a stage tells of more than 100 percent, and each carries the name of the stage and
/// of the job.
pub proof fn reports_are_bounded(job_id: Seq<char>, spec: StageView, e: StageEvent)
    ensures
        match stage_turn(job_id, spec, e) {
            ActionView::Announce(r) => r.percent <= 100 && r.stage == spec.stage && r.job_id
                == job_id,
            ActionView::Log(r) => r.percent <= 100 && r.stage == spec.stage && r.job_id == job_id,
            ActionView::Report(r) => r.percent <= 100 && r.stage == spec.stage && r.job_id
                == job_id,
            _ => true,
        },
{
}

/// The progress of a stage grows with what its tool tells, from the start of its share to the end:
/// as much of the share as the tool tells of, in whole percent; a line that tells of nothing leaves
/// it at its start.
pub proof fn progress_is_the_share_that_was_told(start: u8, span: u8, line: Seq<char>)
    requires
        start + span <= 100,
    ensures
        progress_of_line(line) is None ==> line_percent(start, span, line) == start,
        progress_of_line(line) == Some(0u8) ==> line_percent(start, span, line) == start,
        progress_of_line(line) == Some(100u8) ==> line_percent(start, span, line) == start + span,
        progress_of_line(line) matches Some(p) ==> (p <= 100 ==> {
            let told = line_percent(start, span, line) - start;
            &&& 100 * told <= span * p
            &&& span * p < 100 * told + 100
        }),
{
    if let Some(p) = progress_of_line(line) {
        let product = span as int * p as int;
        if p <= 100 {
            assert(0 <= product <= span as int * 100) by (nonlinear_arith)
                requires
                    product == span as int * p as int,
                    0 <= p <= 100,
                    0 <= span,
            ;
        }
    }
}

/// What a line of a tool is told as: the line itself, under the name of the stage, as a warning
/// exactly where it comes from the error output.
pub proof fn lines_are_told_as_they_are(
    job_id: Seq<char>,
    spec: StageView,
    from_stderr: bool,
    line: String,
)
    requires
        spec.progress_start + spec.progress_span <= 100,
        progress_of_line(line@) matches Some(p) ==> p <= 100,
    ensures
        stage_turn(job_id, spec, StageEvent::Line { from_stderr, line }) matches ActionView::Log(e)
            && e.job_id == job_id && e.stage == spec.stage && e.message == line@ && e.level == (
        if from_stderr {
            "warn"@
        } else {
            "info"@
        }) && e.percent == line_percent(spec.progress_start, spec.progress_span, line@),
{
    progress_stays_within_the_stage(spec.progress_start, spec.progress_span, line@);
}

/// The begin of a stage is told at the start of its share, and its end, with success, at the end of
/// it; both name the stage.
pub proof fn begin_and_end_of_a_stage_are_told(job_id: Seq<char>, spec: StageView, exit: ProcessExit)
    requires
        spec.progress_start + spec.progress_span <= 100,
    ensures
        stage_turn(job_id, spec, StageEvent::Begun { cancelled: false }) matches ActionView::Announce(
            e,
        ) && e.job_id == job_id && e.stage == spec.stage && e.level == "info"@ && e.message
            == "开始阶段 "@ + spec.stage && e.percent == spec.progress_start,
        exit.success ==> (stage_turn(job_id, spec, StageEvent::Forgotten(exit)) matches ActionView::Report(
            e,
        ) && e.job_id == job_id && e.stage == spec.stage && e.level == "success"@ && e.message
            == "阶段 "@ + spec.stage + " 完成"@ && e.percent == spec.progress_start
            + spec.progress_span),
        !exit.success ==> stage_turn(job_id, spec, StageEvent::Forgotten(exit)) == ActionView::Finish(
            Err(
                "阶段 "@ + spec.stage + " 执行失败，退出码: "@ + match exit.code {
                    Some(n) => "Some("@ + signed_decimal(n as int) + ")"@,
                    None => "None"@,
                },
            ),
        ),
{
}

/// A tool that runs is listened to until it is quiet, then asked whether it has ended, and left alone
/// for 120 milliseconds where it has not. What it has ended with is what the stage goes on with.
pub proof fn tools_are_listened_to_until_they_end(
    job_id: Seq<char>,
    spec: StageView,
    pid: u32,
    exit: ProcessExit,
)
    ensures
        stage_turn(job_id, spec, StageEvent::Announced(Ok(()))) == ActionView::Spawn,
        stage_turn(job_id, spec, StageEvent::Spawned(Ok(pid))) == ActionView::Attach(pid),
        stage_turn(job_id, spec, StageEvent::Attached { stdout: true, stderr: true })
            == ActionView::Listen,
        stage_turn(job_id, spec, StageEvent::Logged(Ok(()))) == ActionView::Listen,
        stage_turn(job_id, spec, StageEvent::Quiet { cancelled: false }) == ActionView::Poll,
        stage_turn(job_id, spec, StageEvent::Polled(Ok(None))) == ActionView::Rest(120),
        stage_turn(job_id, spec, StageEvent::Rested) == ActionView::Listen,
        stage_turn(job_id, spec, StageEvent::Polled(Ok(Some(exit)))) == ActionView::Forget(exit),
        stage_turn(job_id, spec, StageEvent::Reported(Ok(()))) == ActionView::Finish(Ok(())),
{
}

/// Whatever fails ends a stage, with an error that says what failed.
pub proof fn failures_end_a_stage(job_id: Seq<char>, spec: StageView, err: String, stderr: bool)
    ensures
        stage_turn(job_id, spec, StageEvent::Announced(Err(err))) == ActionView::Finish(
            Err("发送进度事件失败: "@ + err@),
        ),
        stage_turn(job_id, spec, StageEvent::Spawned(Err(err))) == ActionView::Finish(
            Err("阶段 "@ + spec.stage + " 启动失败: "@ + err@),
        ),
        stage_turn(job_id, spec, StageEvent::Attached { stdout: false, stderr })
            == ActionView::Finish(Err("无法读取 stdout"@)),
        stage_turn(job_id, spec, StageEvent::Attached { stdout: true, stderr: false })
            == ActionView::Finish(Err("无法读取 stderr"@)),
        stage_turn(job_id, spec, StageEvent::Logged(Err(err))) == ActionView::Finish(
            Err("发送进度事件失败: "@ + err@),
        ),
        stage_turn(job_id, spec, StageEvent::Polled(Err(err))) == ActionView::Finish(
            Err("阶段 "@ + spec.stage + " 状态检查失败: "@ + err@),
        ),
        stage_turn(job_id, spec, StageEvent::Reported(Err(err))) == ActionView::Finish(
            Err("发送进度事件失败: "@ + err@),
        ),
        stage_turn(job_id, spec, StageEvent::Killed) == ActionView::Finish(Err("任务已取消"@)),
{
}

/// Also what a tool tells beyond 100 percent is taken at its word, as long as it fits: the share grows
/// in proportion.
pub proof fn progress_grows_in_proportion(start: u8, span: u8, line: Seq<char>, p: u8)
    requires
        progress_of_line(line) == Some(p),
        start + span * p / 100 <= 255,
    ensures
        line_percent(start, span, line) == start + span * p / 100,
{
    let product = span as int * p as int;
    assert(0 <= product) by (nonlinear_arith)
        requires
            product == span as int * p as int,
            0 <= p,
            0 <= span,
    ;
}

} // verus!
