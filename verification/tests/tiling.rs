use tif2tiles::tif_inspector::ProcessOutput;
use tif2tiles::tif_inspector::TifInfo;
use tif2tiles::tile_stages::build_stages;
use tif2tiles::tile_stages::build_warp_args;
use tif2tiles::tile_stages::default_tiler;
use tif2tiles::tile_stages::directory_failure;
use tif2tiles::tile_stages::format_of_help;
use tif2tiles::tile_stages::is_geographic_wkt;
use tif2tiles::tile_stages::is_source_web_mercator;
use tif2tiles::tile_stages::is_source_wgs84;
use tif2tiles::tile_stages::is_web_mercator_wkt;
use tif2tiles::tile_stages::resolve_tile_output_format;
use tif2tiles::tile_stages::stage_paths;
use tif2tiles::tile_stages::stage_plan;
use tif2tiles::tile_stages::validate_request;
use tif2tiles::tile_stages::GcjBounds;
use tif2tiles::tile_stages::StageFacts;
use tif2tiles::tile_stages::StagePlan;
use tif2tiles::tile_stages::StageStep;
use tif2tiles::tile_stages::TileJobRequest;
use tif2tiles::tile_stages::TileOutputFormat;

fn s(x: &str) -> String {
    x.to_string()
}

fn request(crs: &str) -> TileJobRequest {
    TileJobRequest {
        job_id: s("job"),
        input_path: s("/in/图.tif"),
        output_dir: s("/out"),
        working_dir: None,
        zoom_min: 3,
        zoom_max: 12,
        resampling: None,
        target_tile_crs: s(crs),
        skip_disk_space_check: false,
        gcj_bounds: None,
        gdal_bin_dir: None,
        gdal2tiles_cmd: None,
        upload_config: None,
        upload_context: None,
    }
}

fn output(success: bool, stdout: &str, stderr: &str) -> Result<ProcessOutput, String> {
    Ok(ProcessOutput {
        success,
        stdout: stdout.as_bytes().to_vec(),
        stderr: stderr.as_bytes().to_vec(),
    })
}

fn info(wkt: Option<&str>) -> TifInfo {
    TifInfo {
        path: s("/in/图.tif"),
        size: [1, 1],
        band_count: 1,
        coordinate_system: wkt.map(s),
        upper_left: None,
        lower_right: None,
        pixel_size: None,
    }
}

#[test]
fn faulty_requests_are_refused() {
    let mut r = request("wgs84");
    assert_eq!(validate_request(&r, true), Ok(()));
    assert_eq!(validate_request(&r, false), Err(s("输入文件不存在: /in/图.tif")));
    r.zoom_max = 25;
    assert_eq!(validate_request(&r, false), Err(s("最大缩放级别不应超过 24")));
    r.zoom_min = 26;
    assert_eq!(validate_request(&r, false), Err(s("最小缩放级别不能大于最大缩放级别")));
    r.zoom_min = 24;
    r.zoom_max = 24;
    assert_eq!(validate_request(&r, true), Ok(()));
}

#[test]
fn the_format_is_read_off_the_help() {
    assert_eq!(format_of_help("PNG, webp, jpeg"), Some(TileOutputFormat::Webp));
    assert_eq!(format_of_help("png Jpeg"), Some(TileOutputFormat::Jpeg));
    assert_eq!(format_of_help("PNG jpg"), Some(TileOutputFormat::Jpeg));
    assert_eq!(format_of_help("PNG"), None);
    assert_eq!(TileOutputFormat::Webp.extension(), "webp");
    assert_eq!(TileOutputFormat::Webp.tile_driver(), "WEBP");
    assert_eq!(TileOutputFormat::Jpeg.extension(), "jpg");
    assert_eq!(TileOutputFormat::Jpeg.tile_driver(), "JPEG");
}

#[test]
fn both_outputs_of_the_tool_count_for_the_format() {
    let format = |o| resolve_tile_output_format(&o);
    assert_eq!(format(output(false, "", "WEBP")), Ok(TileOutputFormat::Webp));
    assert_eq!(format(output(true, "jpeg", "")), Ok(TileOutputFormat::Jpeg));
    assert_eq!(
        format(output(true, "WE", "BP")),
        Err(s("当前 gdal2tiles 不支持 WEBP/JPEG tiledriver，无法按要求切图"))
    );
    assert_eq!(format(Err(s("gone"))), Err(s("检测 gdal2tiles 输出格式失败: gone")));
}

#[test]
fn the_script_stands_in_for_the_program() {
    assert_eq!(default_tiler(&output(true, "", "")), "gdal2tiles");
    assert_eq!(default_tiler(&output(false, "", "")), "gdal2tiles.py");
    assert_eq!(default_tiler(&Err(s("x"))), "gdal2tiles.py");
}

#[test]
fn only_the_outermost_system_counts() {
    assert!(is_geographic_wkt("  geogcrs[\"WGS 84\"]"));
    assert!(is_geographic_wkt("GEOGCS[\"WGS 84\"]"));
    let utm = "PROJCRS[\"UTM\",BASEGEOGCRS[\"WGS 84\"],GEOGCRS[\"WGS 84\"]]";
    assert!(!is_geographic_wkt(utm));
    assert!(!is_geographic_wkt(""));
    assert!(is_web_mercator_wkt("PROJCRS[...,id[\"EPSG\",3857]]"));
    assert!(!is_web_mercator_wkt("PROJCRS[...,ID[\"EPSG\",32650]]"));
    assert!(!is_source_wgs84(&info(None)));
    assert!(!is_source_web_mercator(&info(None)));
    assert!(is_source_wgs84(&info(Some("GEOGCRS[]"))));
}

#[test]
fn files_between_stages_lie_in_the_working_directory() {
    let mut r = request("wgs84");
    let p = stage_paths(&r);
    assert_eq!(p.stem, Some(s("图")));
    assert_eq!(p.wgs, "/out/图_wgs84.tif");
    assert_eq!(p.mercator, "/out/图_3857.tif");
    assert_eq!(p.gcj, "/out/图_gcj_tagged.tif");
    r.working_dir = Some(s("/work"));
    r.input_path = s("..");
    assert_eq!(stage_paths(&r).wgs, "/work/input_wgs84.tif");
}

#[test]
fn the_disk_check_is_switched_off_on_request() {
    let mut r = request("wgs84");
    let plain = vec![
        "-multi", "-wo", "NUM_THREADS=ALL_CPUS", "-of", "VRT", "-t_srs", "EPSG:4326", "i", "o",
    ];
    assert_eq!(build_warp_args(&r, "EPSG:4326", "i", "o"), plain);
    r.skip_disk_space_check = true;
    let args = build_warp_args(&r, "EPSG:4326", "i", "o");
    assert_eq!(args[..3], ["--config", "CHECK_DISK_FREE_SPACE", "FALSE"]);
    assert_eq!(args[3..], plain[..]);
}

fn plan_of(r: &TileJobRequest, direct: bool) -> Result<StagePlan, String> {
    stage_plan(r, &stage_paths(r), "gdal2tiles", TileOutputFormat::Webp, direct)
}

#[test]
fn images_in_another_system_are_warped_first() {
    let plan = plan_of(&request("wgs84"), false).unwrap();
    assert_eq!(plan.stages.len(), 2);
    let warp = &plan.stages[0];
    assert_eq!(warp.stage, "warp_wgs84");
    assert_eq!((warp.progress_start, warp.progress_span), (5, 35));
    assert_eq!(warp.command, "gdalwarp");
    assert_eq!(warp.args[6..], ["EPSG:4326", "/in/图.tif", "/out/图_wgs84.tif"]);
    let tiles = &plan.stages[1];
    assert_eq!(tiles.stage, "tiles_wgs84");
    assert_eq!((tiles.progress_start, tiles.progress_span), (40, 60));
    assert_eq!(tiles.command, "gdal2tiles");
    assert_eq!(
        tiles.args,
        vec![
            "-p",
            "geodetic",
            "--xyz",
            "--no-kml",
            "--tiledriver",
            "WEBP",
            "-z",
            "3-12",
            "-r",
            "average",
            "--processes=4",
            "-w",
            "none",
            "/out/图_wgs84.tif",
            "/out"
        ]
    );
    assert_eq!(plan.intermediates, vec!["/out/图_wgs84.tif"]);
}

#[test]
fn images_in_the_target_system_are_cut_as_they_are() {
    let mut r = request("webmercator");
    r.resampling = Some(s("near"));
    let plan = plan_of(&r, true).unwrap();
    assert_eq!(plan.stages.len(), 1);
    assert_eq!(plan.stages[0].stage, "tiles_mercator");
    assert_eq!(plan.stages[0].args[1], "mercator");
    assert_eq!(plan.stages[0].args[9], "near");
    assert_eq!(plan.stages[0].args[13], "/in/图.tif");
    assert!(plan.intermediates.is_empty());
    let plan = plan_of(&r, false).unwrap();
    assert_eq!(plan.stages[0].stage, "warp_3857");
    assert_eq!(plan.stages[0].args[6..], ["EPSG:3857", "/in/图.tif", "/out/图_3857.tif"]);
    assert_eq!(plan.intermediates, vec!["/out/图_3857.tif"]);
}

fn bounds() -> GcjBounds {
    GcjBounds { ulx: s("120.5"), uly: s("31"), lrx: s("121"), lry: s("30.25") }
}

#[test]
fn gcj_images_get_new_corners() {
    let mut r = request("gcj02");
    assert_eq!(plan_of(&r, false).unwrap_err(), "GCJ-02 模式必须提供左上右下坐标");
    r.gcj_bounds = Some(bounds());
    let plan = plan_of(&r, false).unwrap();
    let names: Vec<String> = plan.stages.iter().map(|x| x.stage.clone()).collect();
    assert_eq!(names, vec!["warp_wgs84", "tag_gcj_bounds", "tiles_gaode_xyz"]);
    assert_eq!(plan.stages[1].command, "gdal_translate");
    assert_eq!(
        plan.stages[1].args,
        vec![
            "-of",
            "VRT",
            "-a_srs",
            "EPSG:4326",
            "-a_ullr",
            "120.5",
            "31",
            "121",
            "30.25",
            "/out/图_wgs84.tif",
            "/out/图_gcj_tagged.tif"
        ]
    );
    assert_eq!(plan.stages[2].args[13], "/out/图_gcj_tagged.tif");
    assert_eq!(plan.intermediates, vec!["/out/图_wgs84.tif", "/out/图_gcj_tagged.tif"]);
    let mut at = 5;
    for stage in &plan.stages {
        assert_eq!(stage.progress_start, at);
        at += stage.progress_span;
    }
    assert_eq!(at, 100);
}

#[test]
fn unknown_systems_are_refused() {
    assert_eq!(plan_of(&request("utm"), true).unwrap_err(), "不支持的目标坐标系: utm");
}

fn no_facts() -> StageFacts {
    StageFacts { work_dir: None, tiler_probe: None, format_probe: None, source: None }
}

fn done(step: StageStep) -> Result<StagePlan, String> {
    match step {
        StageStep::Done(r) => r,
        other => panic!("not done: {:?}", other),
    }
}

#[test]
fn stages_are_found_step_by_step() {
    let r = request("wgs84");
    let mut f = no_facts();
    assert!(matches!(build_stages(&r, &f), StageStep::MakeDir(d) if d == "/out"));
    f.work_dir = Some(Ok(()));
    assert!(matches!(build_stages(&r, &f), StageStep::ProbeTiler));
    f.tiler_probe = Some(output(false, "", ""));
    assert!(matches!(build_stages(&r, &f), StageStep::ProbeFormat(t) if t == "gdal2tiles.py"));
    f.format_probe = Some(output(true, "webp", ""));
    assert!(matches!(build_stages(&r, &f), StageStep::Inspect(p) if p == "/in/图.tif"));
    f.source = Some(Ok(info(Some("GEOGCRS[]"))));
    let plan = done(build_stages(&r, &f)).unwrap();
    assert_eq!(plan.stages.len(), 1);
    assert_eq!(plan.stages[0].command, "gdal2tiles.py");
    assert_eq!(plan.format, TileOutputFormat::Webp);
    f.source = Some(Ok(info(Some("PROJCRS[]"))));
    assert_eq!(done(build_stages(&r, &f)).unwrap().stages.len(), 2);
}

#[test]
fn a_given_tiler_is_not_looked_for() {
    let mut r = request("gcj02");
    r.gdal2tiles_cmd = Some(s("my_tiler"));
    r.gcj_bounds = Some(bounds());
    let mut f = no_facts();
    f.work_dir = Some(Ok(()));
    assert!(matches!(build_stages(&r, &f), StageStep::ProbeFormat(t) if t == "my_tiler"));
    f.format_probe = Some(output(true, "jpg", ""));
    let plan = done(build_stages(&r, &f)).unwrap();
    assert_eq!(plan.stages[2].command, "my_tiler");
    assert_eq!(plan.stages[2].args[5], "JPEG");
}

#[test]
fn what_fails_first_ends_the_search_for_stages() {
    let r = request("webmercator");
    let mut f = no_facts();
    f.work_dir = Some(Err(s("full")));
    assert_eq!(done(build_stages(&r, &f)).unwrap_err(), "无法创建目录 /out: full");
    assert_eq!(directory_failure("/x", "y"), "无法创建目录 /x: y");
    f.work_dir = Some(Ok(()));
    f.tiler_probe = Some(Err(s("x")));
    f.format_probe = Some(output(true, "png", ""));
    assert_eq!(
        done(build_stages(&r, &f)).unwrap_err(),
        "当前 gdal2tiles 不支持 WEBP/JPEG tiledriver，无法按要求切图"
    );
    f.format_probe = Some(output(true, "webp", ""));
    f.source = Some(Err(s("bad image")));
    assert_eq!(done(build_stages(&r, &f)).unwrap_err(), "bad image");
    f.source = Some(Ok(info(Some("X[ID[\"EPSG\",3857]]"))));
    assert_eq!(done(build_stages(&r, &f)).unwrap().stages.len(), 1);
}
