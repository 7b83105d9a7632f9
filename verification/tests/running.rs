use std::cell::RefCell;
use std::rc::Rc;
use tif2tiles::deep_links::own_links;
use tif2tiles::deep_links::PendingLinks;
use tif2tiles::gdal_pipeline::cleanup_intermediate;
use tif2tiles::gdal_pipeline::cleanup_intermediates;
use tif2tiles::gdal_pipeline::cleanup_output_tiles;
use tif2tiles::gdal_pipeline::default_directory_failure;
use tif2tiles::gdal_pipeline::run_tile_pipeline;
use tif2tiles::gdal_pipeline::settle_output_dir;
use tif2tiles::gdal_pipeline::JobFacts;
use tif2tiles::gdal_pipeline::JobStep;
use tif2tiles::gdal_pipeline::TileJobResult;
use tif2tiles::jobs::cancel_job;
use tif2tiles::jobs::directories_of;
use tif2tiles::jobs::kill_command;
use tif2tiles::jobs::kill_process;
use tif2tiles::jobs::CancelFacts;
use tif2tiles::jobs::CancelStep;
use tif2tiles::jobs::JobControl;
use tif2tiles::jobs::JobState;
use tif2tiles::oss_batch::OssUploadSummary;
use tif2tiles::oss_batch::UploadFailure;
use tif2tiles::oss_upload::OssEnvironment;
use tif2tiles::oss_upload::OssUploadConfig;
use tif2tiles::preview::preview_bounds_by_crs;
use tif2tiles::preview::BoundsPreview;
use tif2tiles::preview::PreviewFacts;
use tif2tiles::preview::PreviewStep;
use tif2tiles::preview::ShiftedCorners;
use tif2tiles::stage_run::emit_failure;
use tif2tiles::stage_run::percent_of_line;
use tif2tiles::stage_run::report_line;
use tif2tiles::stage_run::run_stage;
use tif2tiles::stage_run::ProcessExit;
use tif2tiles::stage_run::StageAction;
use tif2tiles::stage_run::StageEvent;
use tif2tiles::tif_inspector::ProcessOutput;
use tif2tiles::tif_inspector::TifInfo;
use tif2tiles::tile_stages::StagePlan;
use tif2tiles::tile_stages::StageSpec;
use tif2tiles::tile_stages::TileJobRequest;
use tif2tiles::tile_stages::TileOutputFormat;
use tif2tiles::tile_upload::copy_summary;
use tif2tiles::tile_upload::judge_upload;
use tif2tiles::tile_upload::maybe_upload_tiles;
use tif2tiles::tile_upload::ninths_done;
use tif2tiles::tile_upload::upload_progress;
use tif2tiles::tile_upload::UploadFacts;
use tif2tiles::tile_upload::UploadStep;

fn s(x: &str) -> String {
    x.to_string()
}

fn config() -> OssUploadConfig {
    OssUploadConfig {
        enabled: true,
        bucket: Some(s("b")),
        prefix: None,
        endpoint: None,
        region: None,
        fail_task_on_error: false,
        access_key_id: Some(s("id")),
        access_key_secret: Some(s("secret")),
        security_token: None,
        public_base_url: None,
    }
}

fn env() -> OssEnvironment {
    OssEnvironment { access_key_id: None, access_key_secret: None, security_token: None }
}

fn request(output_dir: &str, upload: Option<OssUploadConfig>) -> TileJobRequest {
    TileJobRequest {
        job_id: s("job"),
        input_path: s("/in/a.tif"),
        output_dir: s(output_dir),
        working_dir: Some(s("/work")),
        zoom_min: 0,
        zoom_max: 5,
        resampling: None,
        target_tile_crs: s("wgs84"),
        skip_disk_space_check: false,
        gcj_bounds: None,
        gdal_bin_dir: None,
        gdal2tiles_cmd: None,
        upload_config: upload,
        upload_context: None,
    }
}

fn stage() -> StageSpec {
    StageSpec {
        stage: s("tiles"),
        progress_start: 40,
        progress_span: 60,
        command: s("gdal2tiles"),
        args: vec![],
    }
}

fn turn(e: StageEvent) -> StageAction {
    run_stage("job", &stage(), &e)
}

fn finished(a: StageAction) -> Result<(), String> {
    match a {
        StageAction::Finish(r) => r,
        other => panic!("not over: {:?}", other),
    }
}

#[test]
fn a_stage_runs_to_its_end() {
    match turn(StageEvent::Begun { cancelled: false }) {
        StageAction::Announce(e) => {
            assert_eq!(e.message, "开始阶段 tiles");
            assert_eq!((e.level.as_str(), e.percent), ("info", 40));
            assert_eq!((e.job_id.as_str(), e.stage.as_str()), ("job", "tiles"));
        }
        other => panic!("{:?}", other),
    }
    assert!(matches!(turn(StageEvent::Announced(Ok(()))), StageAction::Spawn));
    assert!(matches!(turn(StageEvent::Spawned(Ok(77))), StageAction::Attach(77)));
    let attached = StageEvent::Attached { stdout: true, stderr: true };
    assert!(matches!(turn(attached), StageAction::Listen));
    match turn(StageEvent::Line { from_stderr: true, line: s("50%") }) {
        StageAction::Log(e) => {
            assert_eq!(e.message, "50%");
            assert_eq!((e.level.as_str(), e.percent), ("warn", 70));
        }
        other => panic!("{:?}", other),
    }
    assert!(matches!(turn(StageEvent::Logged(Ok(()))), StageAction::Listen));
    assert!(matches!(turn(StageEvent::Quiet { cancelled: false }), StageAction::Poll));
    assert!(matches!(turn(StageEvent::Polled(Ok(None))), StageAction::Rest(120)));
    assert!(matches!(turn(StageEvent::Rested), StageAction::Listen));
    let exit = ProcessExit { success: true, code: Some(0) };
    assert!(matches!(turn(StageEvent::Polled(Ok(Some(exit)))), StageAction::Forget(x) if x.success));
    match turn(StageEvent::Forgotten(exit)) {
        StageAction::Report(e) => {
            assert_eq!(e.message, "阶段 tiles 完成");
            assert_eq!((e.level.as_str(), e.percent), ("success", 100));
        }
        other => panic!("{:?}", other),
    }
    assert_eq!(finished(turn(StageEvent::Reported(Ok(())))), Ok(()));
}

#[test]
fn stages_fail_with_their_errors() {
    let cancelled = Err(s("任务已取消"));
    assert_eq!(finished(turn(StageEvent::Begun { cancelled: true })), cancelled);
    assert!(matches!(turn(StageEvent::Quiet { cancelled: true }), StageAction::Kill));
    assert_eq!(finished(turn(StageEvent::Killed)), cancelled);
    assert_eq!(
        finished(turn(StageEvent::Announced(Err(s("closed"))))),
        Err(s("发送进度事件失败: closed"))
    );
    assert_eq!(
        finished(turn(StageEvent::Spawned(Err(s("not found"))))),
        Err(s("阶段 tiles 启动失败: not found"))
    );
    let no_out = StageEvent::Attached { stdout: false, stderr: false };
    assert_eq!(finished(turn(no_out)), Err(s("无法读取 stdout")));
    let no_err = StageEvent::Attached { stdout: true, stderr: false };
    assert_eq!(finished(turn(no_err)), Err(s("无法读取 stderr")));
    assert_eq!(
        finished(turn(StageEvent::Logged(Err(s("x"))))),
        Err(s("发送进度事件失败: x"))
    );
    assert_eq!(
        finished(turn(StageEvent::Polled(Err(s("lost"))))),
        Err(s("阶段 tiles 状态检查失败: lost"))
    );
    let exit = |code| StageEvent::Forgotten(ProcessExit { success: false, code });
    assert_eq!(
        finished(turn(exit(Some(-3)))),
        Err(format!("阶段 tiles 执行失败，退出码: {:?}", Some(-3)))
    );
    assert_eq!(finished(turn(exit(None))), Err(s("阶段 tiles 执行失败，退出码: None")));
    assert_eq!(
        finished(turn(StageEvent::Reported(Err(s("x"))))),
        Err(s("发送进度事件失败: x"))
    );
    assert_eq!(emit_failure("x"), "发送进度事件失败: x");
}

#[test]
fn lines_move_the_progress() {
    assert_eq!(percent_of_line(5, 35, "no progress"), 5);
    assert_eq!(percent_of_line(5, 35, "0...10...20"), 12);
    assert_eq!(percent_of_line(5, 35, "100%"), 40);
    assert_eq!(percent_of_line(40, 60, "255%"), 193);
    assert_eq!(percent_of_line(200, 100, "100%"), 255);
    assert_eq!(percent_of_line(0, 255, "255%"), (255u16 * 255 / 100) as u8);
    assert_eq!(report_line("job", &stage(), false, "255%").percent, 100);
    assert_eq!(report_line("job", &stage(), false, "x").level, "info");
}

#[test]
fn jobs_are_registered_once() {
    let mut jobs: JobState<u32> = JobState::default();
    assert_eq!(jobs.register("a", 1), Ok(()));
    assert_eq!(jobs.register("b", 2), Ok(()));
    assert_eq!(jobs.register("a", 3), Err(s("任务ID已存在: a")));
    assert_eq!(jobs.get("a"), Some(&1));
    assert_eq!(jobs.get("c"), None);
    jobs.remove("c");
    jobs.remove("a");
    assert_eq!(jobs.get("a"), None);
    assert_eq!(jobs.get("b"), Some(&2));
    assert_eq!(jobs.register("a", 4), Ok(()));
    assert_eq!(jobs.get("a"), Some(&4));
}

/// Cancels a job in a table of its controls; killing and removing fail. The steps that were tried
/// are noted.
fn cancel_in(
    table: &mut JobState<Rc<RefCell<JobControl>>>,
    job_id: &str,
    tried: &mut Vec<String>,
) -> Result<bool, String> {
    let mut facts = CancelFacts::default();
    loop {
        match cancel_job(job_id, &facts) {
            CancelStep::Find(id) => facts.found = Some(Ok(table.get(&id).is_some())),
            CancelStep::Mark => {
                let handle = table.get(job_id).unwrap();
                handle.borrow_mut().cancel();
                facts.marked = Some(Ok(handle.borrow().clone()));
            }
            CancelStep::Kill(pid) => {
                tried.push(format!("kill {}", pid));
                facts.killed = Some(Err(s("gone")));
            }
            CancelStep::RemoveDir(dir) => {
                tried.push(format!("remove {}", dir));
                facts.removed.push(Err(s("busy")));
            }
            CancelStep::Unregister(id) => {
                table.remove(&id);
                facts.unregistered = Some(Ok(()));
            }
            CancelStep::Done(result) => return result,
        }
    }
}

#[test]
fn a_job_is_cancelled_once_with_all_it_has() {
    let mut c = JobControl::for_request(&request("/out", None), "/out");
    assert!(!c.cancelled);
    assert_eq!(c.current_pid, None);
    c.set_pid(Some(9));
    let handle = Rc::new(RefCell::new(c));
    let other = Rc::new(RefCell::new(JobControl::default()));
    let mut table: JobState<Rc<RefCell<JobControl>>> = JobState::default();
    assert_eq!(table.register("job", handle.clone()), Ok(()));
    assert_eq!(table.register("other", other.clone()), Ok(()));
    let mut tried = vec![];
    assert_eq!(cancel_in(&mut table, "job", &mut tried), Ok(true));
    assert_eq!(tried, vec!["kill 9", "remove /work", "remove /out"]);
    assert!(handle.borrow().cancelled);
    assert!(table.get("job").is_none());
    assert!(table.get("other").is_some());
    assert_eq!(cancel_in(&mut table, "job", &mut tried), Ok(false));
    assert_eq!(tried.len(), 3);
    assert!(handle.borrow().cancelled);
    assert!(!other.borrow().cancelled);
    assert_eq!(cancel_in(&mut table, "other", &mut tried), Ok(true));
    assert_eq!(tried.len(), 3);
    assert!(other.borrow().cancelled);
}

#[test]
fn broken_locks_end_a_cancelling() {
    let end = |f: &CancelFacts| match cancel_job("job", f) {
        CancelStep::Done(result) => result,
        step => panic!("{:?}", step),
    };
    let mut f = CancelFacts::default();
    assert!(matches!(cancel_job("job", &f), CancelStep::Find(id) if id == "job"));
    f.found = Some(Err(s("table")));
    assert_eq!(end(&f), Err(s("table")));
    f.found = Some(Ok(true));
    assert!(matches!(cancel_job("job", &f), CancelStep::Mark));
    f.marked = Some(Err(s("process")));
    assert_eq!(end(&f), Err(s("process")));
    f.marked = Some(Ok(JobControl::default()));
    assert!(matches!(cancel_job("job", &f), CancelStep::Unregister(id) if id == "job"));
    f.unregistered = Some(Err(s("table")));
    assert_eq!(end(&f), Err(s("table")));
}

#[test]
fn the_directories_of_a_job() {
    let c = JobControl::for_request(&request("/out", None), "/out");
    assert_eq!(directories_of(&c), vec!["/work", "/out"]);
    assert!(directories_of(&JobControl::default()).is_empty());
}

#[test]
fn processes_are_killed_by_the_platform() {
    let (program, args) = kill_command(42, false);
    assert_eq!(program, "kill");
    assert_eq!(args, vec!["-9", "42"]);
    let (program, args) = kill_command(42, true);
    assert_eq!(program, "taskkill");
    assert_eq!(args, vec!["/PID", "42", "/T", "/F"]);
    assert_eq!(kill_process(&Ok(true), true), Ok(()));
    assert_eq!(kill_process(&Ok(false), true), Err(s("taskkill 返回失败")));
    assert_eq!(kill_process(&Ok(false), false), Err(s("kill 返回失败")));
    assert_eq!(kill_process(&Err(s("x")), false), Err(s("终止进程失败: x")));
}

fn summary(failed: usize) -> OssUploadSummary {
    OssUploadSummary {
        uploaded_count: 7,
        failed_count: failed,
        bucket: s("b"),
        prefix: s("p"),
        public_base_url: s("u"),
        sample_tile_url: Some(s("t")),
        failures: vec![UploadFailure { file_path: s("f"), error: s("e") }],
    }
}

fn no_upload_facts() -> UploadFacts {
    UploadFacts { run_id: None, prepared: None, sent: None, reported: None }
}

fn upload_done(step: UploadStep) -> Result<Option<OssUploadSummary>, String> {
    match step {
        UploadStep::Done(r) => r,
        other => panic!("not done: {:?}", other),
    }
}

#[test]
fn no_upload_without_a_wish() {
    let r = request("/out", None);
    assert!(upload_done(maybe_upload_tiles(&r, &env(), &no_upload_facts())).unwrap().is_none());
    let mut off = config();
    off.enabled = false;
    let r = request("/out", Some(off));
    assert!(upload_done(maybe_upload_tiles(&r, &env(), &no_upload_facts())).unwrap().is_none());
}

#[test]
fn an_upload_runs_through_its_steps() {
    let r = request("/out", Some(config()));
    let mut f = no_upload_facts();
    assert!(matches!(maybe_upload_tiles(&r, &env(), &f), UploadStep::NameBatch));
    f.run_id = Some(Ok(s("17")));
    match maybe_upload_tiles(&r, &env(), &f) {
        UploadStep::Prepare(e) => {
            assert_eq!(e.stage, "upload_prepare");
            assert_eq!(e.percent, 90);
            assert_eq!(
                e.message,
                "切图完成，准备上传 OSS。对象根路径（PUT 前缀）: https://xuntian-pro-public.oss-cn-beijing.aliyuncs.com/xuntian/map/17/"
            );
        }
        other => panic!("{:?}", other),
    }
    f.prepared = Some(Ok(()));
    assert!(matches!(maybe_upload_tiles(&r, &env(), &f), UploadStep::Send(id) if id == "17"));
    f.sent = Some(Ok(summary(0)));
    match maybe_upload_tiles(&r, &env(), &f) {
        UploadStep::Report(e) => {
            assert_eq!(e.message, "OSS 上传完成：成功 7，失败 0");
            assert_eq!((e.stage.as_str(), e.level.as_str(), e.percent), ("upload_done", "success", 99));
        }
        other => panic!("{:?}", other),
    }
    f.sent = Some(Ok(summary(2)));
    match maybe_upload_tiles(&r, &env(), &f) {
        UploadStep::Report(e) => assert_eq!(e.level, "warn"),
        other => panic!("{:?}", other),
    }
    f.reported = Some(Ok(()));
    let got = upload_done(maybe_upload_tiles(&r, &env(), &f)).unwrap().unwrap();
    assert_eq!(got.uploaded_count, 7);
    assert_eq!(got.failures[0].file_path, "f");
    assert_eq!(got.sample_tile_url, Some(s("t")));
    assert_eq!(copy_summary(&got).failures[0].error, "e");
}

#[test]
fn unknown_credentials_are_told_of_before_an_upload() {
    let mut c = config();
    c.access_key_id = None;
    let r = request("/out", Some(c));
    let mut f = no_upload_facts();
    f.run_id = Some(Ok(s("17")));
    match maybe_upload_tiles(&r, &env(), &f) {
        UploadStep::Prepare(e) => assert_eq!(
            e.message,
            "切图完成，准备上传 OSS（尚未解析根路径，若缺密钥将在随后失败）"
        ),
        other => panic!("{:?}", other),
    }
}

#[test]
fn failed_uploads_are_weighed() {
    let mut c = config();
    let failed: Result<OssUploadSummary, String> = Err(s("no files"));
    let got = judge_upload(&c, "/out", &failed).unwrap().unwrap();
    assert_eq!((got.uploaded_count, got.failed_count), (0, 1));
    assert_eq!((got.bucket.as_str(), got.prefix.as_str()), ("b", ""));
    assert_eq!(got.public_base_url, "");
    assert_eq!(got.failures[0].file_path, "/out");
    assert_eq!(got.failures[0].error, "no files");
    let cancelled: Result<OssUploadSummary, String> = Err(s("OSS 上传已被取消"));
    assert_eq!(judge_upload(&c, "/out", &cancelled).unwrap_err(), "OSS 上传已被取消");
    c.fail_task_on_error = true;
    assert_eq!(
        judge_upload(&c, "/out", &failed).unwrap_err(),
        "OSS 上传失败且配置为强失败: no files"
    );
    assert_eq!(judge_upload(&c, "/out", &cancelled).unwrap_err(), "OSS 上传已被取消");
}

#[test]
fn steps_of_an_upload_that_fail_end_it() {
    let r = request("/out", Some(config()));
    let mut f = no_upload_facts();
    f.run_id = Some(Err(s("clock")));
    assert_eq!(upload_done(maybe_upload_tiles(&r, &env(), &f)).unwrap_err(), "clock");
    f.run_id = Some(Ok(s("1")));
    f.prepared = Some(Err(s("x")));
    assert_eq!(
        upload_done(maybe_upload_tiles(&r, &env(), &f)).unwrap_err(),
        "发送进度事件失败: x"
    );
    f.prepared = Some(Ok(()));
    f.sent = Some(Err(s("bad")));
    match maybe_upload_tiles(&r, &env(), &f) {
        UploadStep::Report(e) => {
            assert_eq!((e.level.as_str(), e.message.as_str()), ("warn", "OSS 上传失败: bad"))
        }
        other => panic!("{:?}", other),
    }
    f.reported = Some(Err(s("y")));
    assert_eq!(
        upload_done(maybe_upload_tiles(&r, &env(), &f)).unwrap_err(),
        "发送进度事件失败: y"
    );
}

#[test]
fn progress_of_an_upload_stays_below_its_end() {
    let e = upload_progress("job", 5, 10);
    assert_eq!(e.message, "OSS 上传进度: 5/10");
    assert_eq!((e.stage.as_str(), e.level.as_str(), e.percent), ("uploading", "info", 95));
    assert_eq!(upload_progress("job", 10, 10).percent, 99);
    assert_eq!(upload_progress("job", 0, 0).percent, 99);
    assert_eq!(upload_progress("job", 7, 1).percent, 99);
    assert_eq!(upload_progress("job", 0, 5).percent, 90);
    assert_eq!(upload_progress("job", 1, 7).percent, 91);
    assert_eq!(upload_progress("job", usize::MAX, usize::MAX).percent, 99);
    for total in 1..200usize {
        let mut last = 0;
        for done in 0..=total {
            let ninths = ninths_done(done, total);
            if (18 * done) % (2 * total) != total {
                assert_eq!(ninths, ((done as f64 / total as f64) * 9.0).round() as u8);
            }
            assert_eq!(upload_progress("job", done, total).percent, 90 + ninths);
            assert!(ninths >= last);
            last = ninths;
        }
    }
    assert_eq!(ninths_done(1, 2), 5);
    assert_eq!(ninths_done(1, 6), 2);
}

fn no_job_facts() -> JobFacts {
    JobFacts {
        allocated: None,
        input_exists: None,
        output_made: None,
        registered: None,
        announced: None,
        planned: None,
        stages: vec![],
        removed: vec![],
        uploaded: None,
        unregistered: None,
        output_removed: None,
        reported: None,
    }
}

fn plan() -> StagePlan {
    StagePlan {
        stages: vec![stage(), stage()],
        intermediates: vec![s("/work/a_wgs84.tif")],
        format: TileOutputFormat::Webp,
    }
}

fn planned_facts() -> JobFacts {
    let mut f = no_job_facts();
    f.input_exists = Some(true);
    f.output_made = Some(Ok(()));
    f.registered = Some(Ok(()));
    f.announced = Some(Ok(()));
    f.planned = Some(Ok(plan()));
    f
}

fn job_over(step: JobStep) -> Result<TileJobResult, String> {
    match step {
        JobStep::Finish(r) => r,
        other => panic!("not over: {:?}", other),
    }
}

#[test]
fn a_job_runs_to_its_end() {
    let r = request("/out", None);
    let mut f = no_job_facts();
    assert!(matches!(run_tile_pipeline(&r, &f), JobStep::CheckInput(p) if p == "/in/a.tif"));
    f.input_exists = Some(true);
    assert!(matches!(run_tile_pipeline(&r, &f), JobStep::MakeDir(d) if d == "/out"));
    f.output_made = Some(Ok(()));
    assert!(matches!(run_tile_pipeline(&r, &f), JobStep::Register(d) if d == "/out"));
    f.registered = Some(Ok(()));
    match run_tile_pipeline(&r, &f) {
        JobStep::Announce(e) => {
            assert_eq!(e.message, "开始执行切图任务");
            assert_eq!((e.stage.as_str(), e.level.as_str(), e.percent), ("prepare", "info", 0));
        }
        other => panic!("{:?}", other),
    }
    f.announced = Some(Ok(()));
    assert!(matches!(run_tile_pipeline(&r, &f), JobStep::Plan));
    f.planned = Some(Ok(plan()));
    assert!(matches!(run_tile_pipeline(&r, &f), JobStep::RunStage(0)));
    f.stages.push(Ok(()));
    assert!(matches!(run_tile_pipeline(&r, &f), JobStep::RunStage(1)));
    f.stages.push(Ok(()));
    match run_tile_pipeline(&r, &f) {
        JobStep::Upload(between) => assert_eq!(between, vec!["/work/a_wgs84.tif"]),
        other => panic!("{:?}", other),
    }
    f.uploaded = Some(Ok(Some(summary(0))));
    assert!(matches!(run_tile_pipeline(&r, &f), JobStep::Unregister));
    f.unregistered = Some(Ok(()));
    assert!(matches!(run_tile_pipeline(&r, &f), JobStep::Remove(p) if p == "/work/a_wgs84.tif"));
    f.removed.push(Err(s("busy")));
    match run_tile_pipeline(&r, &f) {
        JobStep::Report(e) => {
            assert_eq!(e.message, "瓦片生成完成");
            assert_eq!((e.stage.as_str(), e.level.as_str(), e.percent), ("done", "success", 100));
        }
        other => panic!("{:?}", other),
    }
    f.reported = Some(Ok(()));
    let result = job_over(run_tile_pipeline(&r, &f)).unwrap();
    assert_eq!(result.job_id, "job");
    assert_eq!(result.output_dir, "/out");
    assert_eq!(result.tile_template, "/out/{z}/{x}/{y}.webp");
    assert_eq!(result.generated_intermediate_files, vec!["/work/a_wgs84.tif"]);
    assert_eq!(result.upload_summary.unwrap().uploaded_count, 7);
}

#[test]
fn a_job_without_a_directory_gets_one() {
    let r = request("  ", Some(config()));
    let mut f = planned_facts();
    assert!(matches!(run_tile_pipeline(&r, &f), JobStep::AllocateDir));
    f.allocated = Some(Err((s("/tmp/x"), s("full"))));
    assert_eq!(job_over(run_tile_pipeline(&r, &f)).unwrap_err(), "无法创建默认输出目录 /tmp/x: full");
    assert_eq!(default_directory_failure("/a", "b"), "无法创建默认输出目录 /a: b");
    f.allocated = Some(Ok(s("/tmp/y")));
    f.stages = vec![Ok(()), Ok(())];
    f.removed = vec![Ok(())];
    f.uploaded = Some(Ok(None));
    f.unregistered = Some(Ok(()));
    assert!(matches!(run_tile_pipeline(&r, &f), JobStep::RemoveOutput(d) if d == "/tmp/y"));
    f.output_removed = Some(Err(s("busy")));
    f.reported = Some(Ok(()));
    let result = job_over(run_tile_pipeline(&r, &f)).unwrap();
    assert_eq!(result.output_dir, "/tmp/y");
    assert_eq!(result.generated_intermediate_files, vec!["/tmp/y"]);
    assert!(result.upload_summary.is_none());
    f.output_removed = Some(Ok(()));
    let result = job_over(run_tile_pipeline(&r, &f)).unwrap();
    assert!(result.generated_intermediate_files.is_empty());
    let settled = settle_output_dir(r, s("/tmp/y"));
    assert_eq!(settled.output_dir, "/tmp/y");
    assert_eq!(settled.job_id, "job");
}

#[test]
fn directories_of_the_user_are_kept() {
    let r = request("/out", Some(config()));
    let mut f = planned_facts();
    f.stages = vec![Ok(()), Ok(())];
    f.removed = vec![Ok(())];
    f.uploaded = Some(Ok(None));
    f.unregistered = Some(Ok(()));
    assert!(matches!(run_tile_pipeline(&r, &f), JobStep::Report(_)));
    let local = request("", None);
    f.allocated = Some(Ok(s("/tmp/y")));
    assert!(matches!(run_tile_pipeline(&local, &f), JobStep::Report(_)));
}

#[test]
fn a_failed_stage_ends_a_job() {
    let r = request("/out", Some(config()));
    let mut f = planned_facts();
    f.stages = vec![Err(s("first")), Err(s("second"))];
    assert!(matches!(run_tile_pipeline(&r, &f), JobStep::Unregister));
    f.unregistered = Some(Ok(()));
    assert_eq!(job_over(run_tile_pipeline(&r, &f)).unwrap_err(), "first");
    f.unregistered = Some(Err(s("lock")));
    assert_eq!(job_over(run_tile_pipeline(&r, &f)).unwrap_err(), "lock");
}

#[test]
fn files_between_stages_stay_where_the_upload_fails_a_job() {
    let mut c = config();
    c.fail_task_on_error = true;
    let r = request("/out", Some(c));
    let mut f = planned_facts();
    f.stages = vec![Ok(()), Ok(())];
    f.uploaded = Some(Err(s("OSS 上传失败且配置为强失败: no")));
    assert!(matches!(run_tile_pipeline(&r, &f), JobStep::Unregister));
    f.unregistered = Some(Ok(()));
    assert_eq!(
        job_over(run_tile_pipeline(&r, &f)).unwrap_err(),
        "OSS 上传失败且配置为强失败: no"
    );
}

#[test]
fn other_failures_end_a_job() {
    let r = request("/out", None);
    let mut f = no_job_facts();
    f.input_exists = Some(false);
    assert_eq!(job_over(run_tile_pipeline(&r, &f)).unwrap_err(), "输入文件不存在: /in/a.tif");
    f.input_exists = Some(true);
    f.output_made = Some(Err(s("full")));
    assert_eq!(job_over(run_tile_pipeline(&r, &f)).unwrap_err(), "无法创建目录 /out: full");
    f.output_made = Some(Ok(()));
    f.registered = Some(Err(s("任务ID已存在: job")));
    assert_eq!(job_over(run_tile_pipeline(&r, &f)).unwrap_err(), "任务ID已存在: job");
    f.registered = Some(Ok(()));
    f.announced = Some(Err(s("closed")));
    assert_eq!(job_over(run_tile_pipeline(&r, &f)).unwrap_err(), "发送进度事件失败: closed");
    f.announced = Some(Ok(()));
    f.planned = Some(Err(s("no plan")));
    assert_eq!(job_over(run_tile_pipeline(&r, &f)).unwrap_err(), "no plan");
    let mut f = planned_facts();
    f.stages = vec![Ok(()), Ok(())];
    f.removed = vec![Ok(())];
    f.uploaded = Some(Err(s("OSS 上传已被取消")));
    assert!(matches!(run_tile_pipeline(&r, &f), JobStep::Unregister));
    f.unregistered = Some(Ok(()));
    assert_eq!(job_over(run_tile_pipeline(&r, &f)).unwrap_err(), "OSS 上传已被取消");
    f.uploaded = Some(Ok(None));
    f.reported = Some(Err(s("closed")));
    assert_eq!(job_over(run_tile_pipeline(&r, &f)).unwrap_err(), "发送进度事件失败: closed");
}

#[test]
fn what_could_not_be_cleared_away_is_reported() {
    assert!(cleanup_intermediate("job", "/a", &Ok(())).is_none());
    let e = cleanup_intermediate("job", "/a", &Err(s("busy"))).unwrap();
    assert_eq!(e.message, "中间文件清理失败，已保留: /a; busy");
    assert_eq!(
        (e.stage.as_str(), e.level.as_str(), e.percent),
        ("cleanup_intermediates", "warn", 100)
    );
    let paths = vec![s("/a"), s("/b"), s("/c")];
    let outcomes = vec![Err(s("x")), Ok(()), Err(s("y"))];
    assert_eq!(cleanup_intermediates(&paths, &outcomes), vec!["/a", "/c"]);
    let e = cleanup_output_tiles("job", "/t", &Ok(()));
    assert_eq!(e.message, "上传完成，已删除本地临时瓦片目录: /t");
    assert_eq!((e.stage.as_str(), e.level.as_str()), ("cleanup_output", "info"));
    let e = cleanup_output_tiles("job", "/t", &Err(s("busy")));
    assert_eq!(e.message, "本地临时瓦片目录清理失败，已保留: /t; busy");
    assert_eq!(e.level, "warn");
}

fn no_preview_facts() -> PreviewFacts {
    PreviewFacts { input_exists: None, temp_path: None, warped: None, inspected: None, shifted: None }
}

fn warp_output(success: bool, stderr: &str) -> Option<Result<ProcessOutput, String>> {
    Some(Ok(ProcessOutput { success, stdout: vec![], stderr: stderr.as_bytes().to_vec() }))
}

fn corners(ul: Option<[u64; 2]>, lr: Option<[u64; 2]>) -> Option<Result<TifInfo, String>> {
    Some(Ok(TifInfo {
        path: s("/t"),
        size: [0, 0],
        band_count: 0,
        coordinate_system: None,
        upper_left: ul,
        lower_right: lr,
        pixel_size: None,
    }))
}

fn shown(step: PreviewStep) -> Result<BoundsPreview, String> {
    match step {
        PreviewStep::Done(r) => r,
        other => panic!("not done: {:?}", other),
    }
}

#[test]
fn a_preview_runs_to_its_end() {
    let mut f = no_preview_facts();
    let next = |f: &PreviewFacts| preview_bounds_by_crs("/a.tif", "webmercator", f);
    assert!(matches!(next(&f), PreviewStep::CheckInput(p) if p == "/a.tif"));
    f.input_exists = Some(true);
    assert!(matches!(next(&f), PreviewStep::NameTemp));
    f.temp_path = Some(s("/tmp/p.vrt"));
    match next(&f) {
        PreviewStep::Warp(args) => assert_eq!(
            args,
            vec![
                "-of",
                "VRT",
                "--config",
                "CHECK_DISK_FREE_SPACE",
                "FALSE",
                "-t_srs",
                "EPSG:3857",
                "/a.tif",
                "/tmp/p.vrt"
            ]
        ),
        other => panic!("{:?}", other),
    }
    f.warped = warp_output(true, "");
    assert!(matches!(next(&f), PreviewStep::Inspect(p) if p == "/tmp/p.vrt"));
    f.inspected = corners(Some([1, 2]), Some([3, 4]));
    let p = shown(next(&f)).unwrap();
    assert_eq!(p.target_crs, "webmercator");
    assert_eq!((p.upper_left, p.lower_right), ([1, 2], [3, 4]));
    assert_eq!(p.source_srs, "EPSG:3857");
    assert_eq!(p.note, None);
    let p = shown(preview_bounds_by_crs("/a.tif", "wgs84", &f)).unwrap();
    assert_eq!(p.source_srs, "EPSG:4326");
}

#[test]
fn gcj_previews_are_shifted() {
    let mut f = no_preview_facts();
    f.input_exists = Some(true);
    f.temp_path = Some(s("/t"));
    f.warped = warp_output(true, "");
    f.inspected = corners(Some([1, 2]), Some([3, 4]));
    match preview_bounds_by_crs("/a.tif", "gcj02", &f) {
        PreviewStep::Shift { upper_left, lower_right } => {
            assert_eq!((upper_left, lower_right), ([1, 2], [3, 4]))
        }
        other => panic!("{:?}", other),
    }
    f.shifted = Some(ShiftedCorners { upper_left: [5, 6], lower_right: [7, 8] });
    let p = shown(preview_bounds_by_crs("/a.tif", "gcj02", &f)).unwrap();
    assert_eq!((p.upper_left, p.lower_right), ([5, 6], [7, 8]));
    assert_eq!(p.source_srs, "GCJ-02");
    assert_eq!(p.note, Some(s("GCJ-02 坐标由 WGS84 边界经偏移模型换算得到")));
}

#[test]
fn previews_fail_with_their_errors() {
    let mut f = no_preview_facts();
    let error = |crs: &str, f: &PreviewFacts| {
        shown(preview_bounds_by_crs("/a.tif", crs, f)).unwrap_err()
    };
    f.input_exists = Some(false);
    assert_eq!(error("utm", &f), "输入文件不存在: /a.tif");
    f.input_exists = Some(true);
    assert_eq!(error("utm", &f), "不支持的目标坐标系: utm");
    f.temp_path = Some(s("/t"));
    f.warped = Some(Err(s("gone")));
    assert_eq!(error("wgs84", &f), "执行 gdalwarp 失败: gone");
    f.warped = warp_output(false, "bad");
    assert_eq!(error("wgs84", &f), "gdalwarp 执行失败: bad");
    f.warped = warp_output(true, "");
    f.inspected = Some(Err(s("odd")));
    assert_eq!(error("wgs84", &f), "odd");
    f.inspected = corners(None, None);
    assert_eq!(error("wgs84", &f), "未能读取左上坐标");
    f.inspected = corners(Some([1, 2]), None);
    assert_eq!(error("gcj02", &f), "未能读取右下坐标");
}

#[test]
fn links_wait_until_they_are_asked_for() {
    let args = vec![s("/app"), s("xuntian-uploader://a"), s("http://x"), s("xuntian-uploader:b")];
    let own = own_links(&args);
    assert_eq!(own, vec!["xuntian-uploader://a", "xuntian-uploader:b"]);
    let mut links = PendingLinks::new();
    assert_eq!(links.push(&vec![]), None);
    assert_eq!(links.push(&own), Some(own.clone()));
    assert_eq!(links.push(&vec![s("xuntian-uploader:c")]), Some(vec![s("xuntian-uploader:c")]));
    assert_eq!(
        links.take(),
        vec!["xuntian-uploader://a", "xuntian-uploader:b", "xuntian-uploader:c"]
    );
    assert!(links.take().is_empty());
}
