//! The stages of a tiling job: which tools run, on which files, with which arguments.

use crate::numbers::decimal;
use crate::numbers::push_decimal;
use crate::oss_upload::OssUploadConfig;
use crate::paths::file_stem;
use crate::paths::joined;
use crate::paths::path_join;
use crate::paths::stem_outcome;
use crate::text::ascii_upper;
use crate::text::begins_with;
use crate::text::concat2;
use crate::text::concat3;
use crate::text::concat4;
use crate::text::contains;
use crate::text::from_utf8_lossy;
use crate::text::has_text;
use crate::text::lossy_text;
use crate::text::opt_text;
use crate::text::push_text;
use crate::text::same_text;
use crate::text::starts_with;
use crate::text::texts;
use crate::text::text_at;
use crate::text::to_ascii_upper;
use crate::text::trim_start;
use crate::text::trim_start_by;
use crate::text::CharClass;
use crate::tif_inspector::ProcessOutput;
use crate::tif_inspector::TifInfo;
use crate::upload_context::UploadContext;
use vstd::prelude::*;

verus! {

/// The corners of an image in GCJ-02, as the texts that go to the tool.
#[derive(Debug, Clone)]
pub struct GcjBounds {
    pub ulx: String,
    pub uly: String,
    pub lrx: String,
    pub lry: String,
}

/// A request to cut an image into tiles.
#[derive(Debug, Clone)]
pub struct TileJobRequest {
    pub job_id: String,
    pub input_path: String,
    pub output_dir: String,
    pub working_dir: Option<String>,
    pub zoom_min: u8,
    pub zoom_max: u8,
    pub resampling: Option<String>,
    pub target_tile_crs: String,
    pub skip_disk_space_check: bool,
    pub gcj_bounds: Option<GcjBounds>,
    pub gdal_bin_dir: Option<String>,
    pub gdal2tiles_cmd: Option<String>,
    pub upload_config: Option<OssUploadConfig>,
    pub upload_context: Option<UploadContext>,
}

/// What is wrong with a request, whose input file exists or not: the first of three faults.
pub open spec fn request_fault(req: TileJobRequest, input_exists: bool) -> Option<Seq<char>> {
    if req.zoom_min > req.zoom_max {
        Some("最小缩放级别不能大于最大缩放级别"@)
    } else if req.zoom_max > 24 {
        Some("最大缩放级别不应超过 24"@)
    } else if !input_exists {
        Some("输入文件不存在: "@ + req.input_path@)
    } else {
        None
    }
}

/// Refuses a request that no tool could serve.
pub fn validate_request(req: &TileJobRequest, input_exists: bool) -> (r: Result<(), String>)
    ensures
        match request_fault(*req, input_exists) {
            Some(fault) => r is Err && r->Err_0@ == fault,
            None => r is Ok,
        },
{
    if req.zoom_min > req.zoom_max {
        return Err("最小缩放级别不能大于最大缩放级别".to_string());
    }
    if req.zoom_max > 24 {
        return Err("最大缩放级别不应超过 24".to_string());
    }
    if !input_exists {
        return Err(concat2("输入文件不存在: ", req.input_path.as_str()));
    }
    Ok(())
}

// The format of the tiles.

/// The formats in which tiles can be written.
#[derive(Debug, Clone, Copy, PartialEq, Eq, Structural)]
pub enum TileOutputFormat {
    Webp,
    Jpeg,
}

impl TileOutputFormat {
    pub open spec fn extension_text(self) -> Seq<char> {
        match self {
            TileOutputFormat::Webp => "webp"@,
            TileOutputFormat::Jpeg => "jpg"@,
        }
    }

    pub open spec fn driver_text(self) -> Seq<char> {
        match self {
            TileOutputFormat::Webp => "WEBP"@,
            TileOutputFormat::Jpeg => "JPEG"@,
        }
    }

    /// The extension of a tile.
    pub fn extension(self) -> (r: &'static str)
        ensures
            r@ == self.extension_text(),
    {
        match self {
            TileOutputFormat::Webp => "webp",
            TileOutputFormat::Jpeg => "jpg",
        }
    }

    /// The name of the driver that writes a tile.
    pub fn tile_driver(self) -> (r: &'static str)
        ensures
            r@ == self.driver_text(),
    {
        match self {
            TileOutputFormat::Webp => "WEBP",
            TileOutputFormat::Jpeg => "JPEG",
        }
    }
}

/// The format of the tiles for a tool with this help text: WebP where the text speaks of it, else
/// JPEG where it speaks of that, in capital or small letters.
pub open spec fn format_in(help: Seq<char>) -> Option<TileOutputFormat> {
    let upper = ascii_upper(help);
    if has_text(upper, "WEBP"@) {
        Some(TileOutputFormat::Webp)
    } else if has_text(upper, "JPEG"@) || has_text(upper, "JPG"@) {
        Some(TileOutputFormat::Jpeg)
    } else {
        None
    }
}

/// The format of the tiles for a tool with this help text.
pub fn format_of_help(help: &str) -> (r: Option<TileOutputFormat>)
    ensures
        r == format_in(help@),
{
    let upper = to_ascii_upper(help);
    if contains(upper.as_str(), "WEBP") {
        return Some(TileOutputFormat::Webp);
    }
    if contains(upper.as_str(), "JPEG") || contains(upper.as_str(), "JPG") {
        return Some(TileOutputFormat::Jpeg);
    }
    None
}

/// The format of the tiles, read off a run of the tiling tool that asked for its help.
pub open spec fn format_result(outcome: Result<ProcessOutput, String>) -> Result<
    TileOutputFormat,
    Seq<char>,
> {
    match outcome {
        Err(e) => Err("检测 gdal2tiles 输出格式失败: "@ + e@),
        Ok(output) => match format_in(lossy_text(output.stdout@) + "\n"@ + lossy_text(output.stderr@)) {
            Some(format) => Ok(format),
            None => Err("当前 gdal2tiles 不支持 WEBP/JPEG tiledriver，无法按要求切图"@),
        },
    }
}

/// The format of the tiles, read off a run of the tiling tool that asked for its help.
pub fn resolve_tile_output_format(outcome: &Result<ProcessOutput, String>) -> (r: Result<
    TileOutputFormat,
    String,
>)
    ensures
        match format_result(*outcome) {
            Ok(format) => r == Ok::<TileOutputFormat, String>(format),
            Err(e) => r is Err && r->Err_0@ == e,
        },
{
    match outcome {
        Err(e) => Err(concat2("检测 gdal2tiles 输出格式失败: ", e.as_str())),
        Ok(output) => {
            let stdout = from_utf8_lossy(&output.stdout);
            let stderr = from_utf8_lossy(&output.stderr);
            let help = concat3(stdout.as_str(), "\n", stderr.as_str());
            match format_of_help(help.as_str()) {
                Some(format) => Ok(format),
                None => Err(
                    "当前 gdal2tiles 不支持 WEBP/JPEG tiledriver，无法按要求切图".to_string(),
                ),
            }
        },
    }
}

/// The tiling tool to use where the request names none: the program where it answers a call for
/// help, else the script.
pub open spec fn tiler_name(probe: Result<ProcessOutput, String>) -> Seq<char> {
    match probe {
        Ok(output) => if output.success {
            "gdal2tiles"@
        } else {
            "gdal2tiles.py"@
        },
        Err(_) => "gdal2tiles.py"@,
    }
}

/// The tiling tool to use where the request names none.
pub fn default_tiler(probe: &Result<ProcessOutput, String>) -> (r: &'static str)
    ensures
        r@ == tiler_name(*probe),
{
    match probe {
        Ok(output) => if output.success {
            "gdal2tiles"
        } else {
            "gdal2tiles.py"
        },
        Err(_) => "gdal2tiles.py",
    }
}

// The coordinate system of the source.

/// The description of a coordinate system, where one is known.
pub open spec fn wkt_text(info: TifInfo) -> Seq<char> {
    match info.coordinate_system {
        Some(wkt) => wkt@,
        None => ""@,
    }
}

/// The outermost system of the description is a geographic one. A projected system may hold a
/// geographic one inside, which does not count.
pub open spec fn is_geographic(wkt: Seq<char>) -> bool {
    let head = ascii_upper(trim_start_by(wkt, CharClass::WhiteSpace));
    begins_with(head, "GEOGCRS["@) || begins_with(head, "GEOGCS["@)
}

/// The description names the projection of web maps.
pub open spec fn is_web_mercator(wkt: Seq<char>) -> bool {
    has_text(ascii_upper(wkt), "ID[\"EPSG\",3857]"@)
}

/// Whether the outermost system of a description is a geographic one.
pub fn is_geographic_wkt(wkt: &str) -> (r: bool)
    ensures
        r == is_geographic(wkt@),
{
    let head = to_ascii_upper(trim_start(wkt, CharClass::WhiteSpace).as_str());
    starts_with(head.as_str(), "GEOGCRS[") || starts_with(head.as_str(), "GEOGCS[")
}

/// Whether a description names the projection of web maps.
pub fn is_web_mercator_wkt(wkt: &str) -> (r: bool)
    ensures
        r == is_web_mercator(wkt@),
{
    let upper = to_ascii_upper(wkt);
    contains(upper.as_str(), "ID[\"EPSG\",3857]")
}

/// Whether the image needs no warping before it is cut into tiles of a geographic system.
pub fn is_source_wgs84(info: &TifInfo) -> (r: bool)
    ensures
        r == is_geographic(wkt_text(*info)),
{
    match &info.coordinate_system {
        Some(wkt) => is_geographic_wkt(wkt.as_str()),
        None => is_geographic_wkt(""),
    }
}

/// Whether the image needs no warping before it is cut into tiles of web maps.
pub fn is_source_web_mercator(info: &TifInfo) -> (r: bool)
    ensures
        r == is_web_mercator(wkt_text(*info)),
{
    match &info.coordinate_system {
        Some(wkt) => is_web_mercator_wkt(wkt.as_str()),
        None => is_web_mercator_wkt(""),
    }
}

// The stages.

/// One stage of a job: its name, its share of the progress, and the tool that runs.
#[derive(Debug, Clone)]
pub struct StageSpec {
    pub stage: String,
    pub progress_start: u8,
    pub progress_span: u8,
    pub command: String,
    pub args: Vec<String>,
}

/// The content of a [`StageSpec`].
#[verifier::ext_equal]
pub ghost struct StageView {
    pub stage: Seq<char>,
    pub progress_start: u8,
    pub progress_span: u8,
    pub command: Seq<char>,
    pub args: Seq<Seq<char>>,
}

impl View for StageSpec {
    type V = StageView;

    open spec fn view(&self) -> StageView {
        StageView {
            stage: self.stage@,
            progress_start: self.progress_start,
            progress_span: self.progress_span,
            command: self.command@,
            args: texts(self.args@),
        }
    }
}

/// The contents of a list of stages.
pub open spec fn stage_views(v: Seq<StageSpec>) -> Seq<StageView> {
    v.map_values(|s: StageSpec| s@)
}

/// The stages of a job, the files that they leave behind for one another, and the format of the
/// tiles.
#[derive(Debug, Clone)]
pub struct StagePlan {
    pub stages: Vec<StageSpec>,
    pub intermediates: Vec<String>,
    pub format: TileOutputFormat,
}

/// The content of a [`StagePlan`].
#[verifier::ext_equal]
pub ghost struct PlanView {
    pub stages: Seq<StageView>,
    pub intermediates: Seq<Seq<char>>,
    pub format: TileOutputFormat,
}

impl View for StagePlan {
    type V = PlanView;

    open spec fn view(&self) -> PlanView {
        PlanView {
            stages: stage_views(self.stages@),
            intermediates: texts(self.intermediates@),
            format: self.format,
        }
    }
}

/// The files that stages may leave behind for one another.
#[derive(Debug, Clone)]
pub struct StagePaths {
    pub stem: Option<String>,
    pub wgs: String,
    pub mercator: String,
    pub gcj: String,
}

/// The content of a [`StagePaths`].
pub ghost struct PathsView {
    pub stem: Option<Seq<char>>,
    pub wgs: Seq<char>,
    pub mercator: Seq<char>,
    pub gcj: Seq<char>,
}

impl View for StagePaths {
    type V = PathsView;

    open spec fn view(&self) -> PathsView {
        PathsView {
            stem: opt_text(self.stem),
            wgs: self.wgs@,
            mercator: self.mercator@,
            gcj: self.gcj@,
        }
    }
}

/// The directory for the files that stages leave behind.
pub open spec fn work_dir_of(req: TileJobRequest) -> Seq<char> {
    match req.working_dir {
        Some(dir) => dir@,
        None => req.output_dir@,
    }
}

/// The files lie in the working directory and are named after the image.
pub open spec fn paths_fit(req: TileJobRequest, paths: PathsView) -> bool {
    let name = match paths.stem {
        Some(stem) => stem,
        None => "input"@,
    };
    &&& stem_outcome(req.input_path@, paths.stem)
    &&& joined(work_dir_of(req), name + "_wgs84.tif"@, paths.wgs)
    &&& joined(work_dir_of(req), name + "_3857.tif"@, paths.mercator)
    &&& joined(work_dir_of(req), name + "_gcj_tagged.tif"@, paths.gcj)
}

/// The directory for the files that stages leave behind.
pub fn work_dir(req: &TileJobRequest) -> (r: &str)
    ensures
        r@ == work_dir_of(*req),
{
    match &req.working_dir {
        Some(dir) => dir.as_str(),
        None => req.output_dir.as_str(),
    }
}

/// The files that the stages of a request may leave behind.
pub fn stage_paths(req: &TileJobRequest) -> (r: StagePaths)
    ensures
        paths_fit(*req, r@),
{
    let stem = file_stem(req.input_path.as_str());
    let name = match &stem {
        Some(s) => s.as_str(),
        None => "input",
    };
    let dir = work_dir(req);
    let wgs_name = concat2(name, "_wgs84.tif");
    let mercator_name = concat2(name, "_3857.tif");
    let gcj_name = concat2(name, "_gcj_tagged.tif");
    let wgs = path_join(dir, wgs_name.as_str());
    let mercator = path_join(dir, mercator_name.as_str());
    let gcj = path_join(dir, gcj_name.as_str());
    StagePaths { stem, wgs, mercator, gcj }
}

/// The arguments of a warp into another system. The check for free disk space is switched off only
/// where the request says so.
pub open spec fn warp_args(
    skip_disk_space_check: bool,
    target_srs: Seq<char>,
    input: Seq<char>,
    output: Seq<char>,
) -> Seq<Seq<char>> {
    (if skip_disk_space_check {
        seq!["--config"@, "CHECK_DISK_FREE_SPACE"@, "FALSE"@]
    } else {
        Seq::empty()
    }) + seq![
        "-multi"@,
        "-wo"@,
        "NUM_THREADS=ALL_CPUS"@,
        "-of"@,
        "VRT"@,
        "-t_srs"@,
        target_srs,
        input,
        output,
    ]
}

/// The arguments of a warp into another system.
pub fn build_warp_args(req: &TileJobRequest, target_srs: &str, input: &str, output: &str) -> (r: Vec<
    String,
>)
    ensures
        texts(r@) == warp_args(req.skip_disk_space_check, target_srs@, input@, output@),
{
    let mut args: Vec<String> = Vec::new();
    if req.skip_disk_space_check {
        push_text(&mut args, "--config");
        push_text(&mut args, "CHECK_DISK_FREE_SPACE");
        push_text(&mut args, "FALSE");
    }
    push_text(&mut args, "-multi");
    push_text(&mut args, "-wo");
    push_text(&mut args, "NUM_THREADS=ALL_CPUS");
    push_text(&mut args, "-of");
    push_text(&mut args, "VRT");
    push_text(&mut args, "-t_srs");
    push_text(&mut args, target_srs);
    push_text(&mut args, input);
    push_text(&mut args, output);
    assert(texts(args@) =~= warp_args(req.skip_disk_space_check, target_srs@, input@, output@));
    args
}

/// The range of zoom levels in the form of the tiling tool.
pub open spec fn zoom_range(min: u8, max: u8) -> Seq<char> {
    decimal(min as nat) + "-"@ + decimal(max as nat)
}

/// The way in which pixels are brought together: the one of the request, or the average.
pub open spec fn resampling_of(req: TileJobRequest) -> Seq<char> {
    match req.resampling {
        Some(r) => r@,
        None => "average"@,
    }
}

/// The arguments of the tiling tool: tiles in rows from the top, without files for other programs
/// and without a page to view them.
pub open spec fn tile_args(
    req: TileJobRequest,
    profile: Seq<char>,
    format: TileOutputFormat,
    input: Seq<char>,
) -> Seq<Seq<char>> {
    seq![
        "-p"@,
        profile,
        "--xyz"@,
        "--no-kml"@,
        "--tiledriver"@,
        format.driver_text(),
        "-z"@,
        zoom_range(req.zoom_min, req.zoom_max),
        "-r"@,
        resampling_of(req),
        "--processes=4"@,
        "-w"@,
        "none"@,
        input,
        req.output_dir@,
    ]
}

/// The arguments of the tiling tool.
pub fn build_tile_args(req: &TileJobRequest, profile: &str, format: TileOutputFormat, input: &str) -> (r:
    Vec<String>)
    ensures
        texts(r@) == tile_args(*req, profile@, format, input@),
{
    let mut zoom = String::new();
    push_decimal(&mut zoom, req.zoom_min as u128);
    zoom.append("-");
    push_decimal(&mut zoom, req.zoom_max as u128);
    assert(zoom@ =~= zoom_range(req.zoom_min, req.zoom_max));
    let resampling = match &req.resampling {
        Some(r) => r.as_str(),
        None => "average",
    };
    let mut args: Vec<String> = Vec::new();
    push_text(&mut args, "-p");
    push_text(&mut args, profile);
    push_text(&mut args, "--xyz");
    push_text(&mut args, "--no-kml");
    push_text(&mut args, "--tiledriver");
    push_text(&mut args, format.tile_driver());
    push_text(&mut args, "-z");
    push_text(&mut args, zoom.as_str());
    push_text(&mut args, "-r");
    push_text(&mut args, resampling);
    push_text(&mut args, "--processes=4");
    push_text(&mut args, "-w");
    push_text(&mut args, "none");
    push_text(&mut args, input);
    push_text(&mut args, req.output_dir.as_str());
    assert(texts(args@) =~= tile_args(*req, profile@, format, input@));
    args
}

/// The arguments that give an image new corners in a geographic system.
pub open spec fn tag_args(bounds: GcjBounds, input: Seq<char>, output: Seq<char>) -> Seq<Seq<char>> {
    seq![
        "-of"@,
        "VRT"@,
        "-a_srs"@,
        "EPSG:4326"@,
        "-a_ullr"@,
        bounds.ulx@,
        bounds.uly@,
        bounds.lrx@,
        bounds.lry@,
        input,
        output,
    ]
}

/// The arguments that give an image new corners in a geographic system.
pub fn build_tag_args(bounds: &GcjBounds, input: &str, output: &str) -> (r: Vec<String>)
    ensures
        texts(r@) == tag_args(*bounds, input@, output@),
{
    let mut args: Vec<String> = Vec::new();
    push_text(&mut args, "-of");
    push_text(&mut args, "VRT");
    push_text(&mut args, "-a_srs");
    push_text(&mut args, "EPSG:4326");
    push_text(&mut args, "-a_ullr");
    push_text(&mut args, bounds.ulx.as_str());
    push_text(&mut args, bounds.uly.as_str());
    push_text(&mut args, bounds.lrx.as_str());
    push_text(&mut args, bounds.lry.as_str());
    push_text(&mut args, input);
    push_text(&mut args, output);
    assert(texts(args@) =~= tag_args(*bounds, input@, output@));
    args
}

/// A warp of the image into a system, as a stage.
pub open spec fn warp_stage(
    req: TileJobRequest,
    name: Seq<char>,
    span: u8,
    target_srs: Seq<char>,
    output: Seq<char>,
) -> StageView {
    StageView {
        stage: name,
        progress_start: 5,
        progress_span: span,
        command: "gdalwarp"@,
        args: warp_args(req.skip_disk_space_check, target_srs, req.input_path@, output),
    }
}

/// The cutting into tiles, as a stage.
pub open spec fn tile_stage(
    req: TileJobRequest,
    name: Seq<char>,
    start: u8,
    tiler: Seq<char>,
    profile: Seq<char>,
    format: TileOutputFormat,
    input: Seq<char>,
) -> StageView {
    StageView {
        stage: name,
        progress_start: start,
        progress_span: (100 - start) as u8,
        command: tiler,
        args: tile_args(req, profile, format, input),
    }
}

/// The stages of a request. An image that is in the target system already (`direct`) is cut as it
/// is; any other is warped first. For GCJ-02 the image is warped into a geographic system, and gets
/// the corners of the request.
pub open spec fn staged(
    req: TileJobRequest,
    paths: PathsView,
    tiler: Seq<char>,
    format: TileOutputFormat,
    direct: bool,
) -> Result<PlanView, Seq<char>> {
    let crs = req.target_tile_crs@;
    if crs == "wgs84"@ {
        let name = "tiles_wgs84"@;
        Ok(
            if direct {
                PlanView {
                    stages: seq![
                        tile_stage(req, name, 40, tiler, "geodetic"@, format, req.input_path@),
                    ],
                    intermediates: Seq::empty(),
                    format,
                }
            } else {
                PlanView {
                    stages: seq![
                        warp_stage(req, "warp_wgs84"@, 35, "EPSG:4326"@, paths.wgs),
                        tile_stage(req, name, 40, tiler, "geodetic"@, format, paths.wgs),
                    ],
                    intermediates: seq![paths.wgs],
                    format,
                }
            },
        )
    } else if crs == "webmercator"@ {
        let name = "tiles_mercator"@;
        Ok(
            if direct {
                PlanView {
                    stages: seq![
                        tile_stage(req, name, 40, tiler, "mercator"@, format, req.input_path@),
                    ],
                    intermediates: Seq::empty(),
                    format,
                }
            } else {
                PlanView {
                    stages: seq![
                        warp_stage(req, "warp_3857"@, 35, "EPSG:3857"@, paths.mercator),
                        tile_stage(req, name, 40, tiler, "mercator"@, format, paths.mercator),
                    ],
                    intermediates: seq![paths.mercator],
                    format,
                }
            },
        )
    } else if crs == "gcj02"@ {
        match req.gcj_bounds {
            None => Err("GCJ-02 模式必须提供左上右下坐标"@),
            Some(bounds) => Ok(
                PlanView {
                    stages: seq![
                        warp_stage(req, "warp_wgs84"@, 25, "EPSG:4326"@, paths.wgs),
                        StageView {
                            stage: "tag_gcj_bounds"@,
                            progress_start: 30,
                            progress_span: 25,
                            command: "gdal_translate"@,
                            args: tag_args(bounds, paths.wgs, paths.gcj),
                        },
                        tile_stage(
                            req,
                            "tiles_gaode_xyz"@,
                            55,
                            tiler,
                            "mercator"@,
                            format,
                            paths.gcj,
                        ),
                    ],
                    intermediates: seq![paths.wgs, paths.gcj],
                    format,
                },
            ),
        }
    } else {
        Err("不支持的目标坐标系: "@ + crs)
    }
}

/// The content of the result of planning.
pub open spec fn plan_result(r: Result<StagePlan, String>) -> Result<PlanView, Seq<char>> {
    match r {
        Ok(plan) => Ok(plan@),
        Err(e) => Err(e@),
    }
}

fn warp_spec(req: &TileJobRequest, name: &str, span: u8, target_srs: &str, output: &str) -> (r:
    StageSpec)
    ensures
        r@ == warp_stage(*req, name@, span, target_srs@, output@),
{
    StageSpec {
        stage: name.to_string(),
        progress_start: 5,
        progress_span: span,
        command: "gdalwarp".to_string(),
        args: build_warp_args(req, target_srs, req.input_path.as_str(), output),
    }
}

fn tile_spec(
    req: &TileJobRequest,
    name: &str,
    start: u8,
    tiler: &str,
    profile: &str,
    format: TileOutputFormat,
    input: &str,
) -> (r: StageSpec)
    requires
        start <= 100,
    ensures
        r@ == tile_stage(*req, name@, start, tiler@, profile@, format, input@),
{
    StageSpec {
        stage: name.to_string(),
        progress_start: start,
        progress_span: 100 - start,
        command: tiler.to_string(),
        args: build_tile_args(req, profile, format, input),
    }
}

fn one_stage(tile: StageSpec, format: TileOutputFormat) -> (r: StagePlan)
    ensures
        r@ == (PlanView { stages: seq![tile@], intermediates: Seq::empty(), format }),
{
    let ghost view = tile@;
    let mut stages: Vec<StageSpec> = Vec::new();
    stages.push(tile);
    assert(stage_views(stages@) =~= seq![view]);
    let intermediates: Vec<String> = Vec::new();
    assert(texts(intermediates@) =~= Seq::<Seq<char>>::empty());
    StagePlan { stages, intermediates, format }
}

fn two_stages(warp: StageSpec, tile: StageSpec, file: &str, format: TileOutputFormat) -> (r:
    StagePlan)
    ensures
        r@ == (PlanView { stages: seq![warp@, tile@], intermediates: seq![file@], format }),
{
    let ghost first = warp@;
    let ghost second = tile@;
    let mut stages: Vec<StageSpec> = Vec::new();
    stages.push(warp);
    stages.push(tile);
    assert(stage_views(stages@) =~= seq![first, second]);
    let mut intermediates: Vec<String> = Vec::new();
    push_text(&mut intermediates, file);
    assert(texts(intermediates@) =~= seq![file@]);
    StagePlan { stages, intermediates, format }
}

fn gcj_plan(
    req: &TileJobRequest,
    bounds: &GcjBounds,
    paths: &StagePaths,
    tiler: &str,
    format: TileOutputFormat,
) -> (r: StagePlan)
    requires
        req.target_tile_crs@ == "gcj02"@,
        req.gcj_bounds == Some(*bounds),
        "gcj02"@ != "wgs84"@,
        "gcj02"@ != "webmercator"@,
    ensures
        Ok::<PlanView, Seq<char>>(r@) == staged(*req, paths@, tiler@, format, false),
        Ok::<PlanView, Seq<char>>(r@) == staged(*req, paths@, tiler@, format, true),
{
    let wgs = paths.wgs.as_str();
    let gcj = paths.gcj.as_str();
    let warp = warp_spec(req, "warp_wgs84", 25, "EPSG:4326", wgs);
    let tag = StageSpec {
        stage: "tag_gcj_bounds".to_string(),
        progress_start: 30,
        progress_span: 25,
        command: "gdal_translate".to_string(),
        args: build_tag_args(bounds, wgs, gcj),
    };
    let tile = tile_spec(req, "tiles_gaode_xyz", 55, tiler, "mercator", format, gcj);
    let ghost views = seq![warp@, tag@, tile@];
    let mut stages: Vec<StageSpec> = Vec::new();
    stages.push(warp);
    stages.push(tag);
    stages.push(tile);
    assert(stage_views(stages@) =~= views);
    let mut intermediates: Vec<String> = Vec::new();
    push_text(&mut intermediates, wgs);
    push_text(&mut intermediates, gcj);
    assert(texts(intermediates@) =~= seq![wgs@, gcj@]);
    StagePlan { stages, intermediates, format }
}

/// The stages of a request, when the tiling tool, the format and the system of the image are known.
pub fn stage_plan(
    req: &TileJobRequest,
    paths: &StagePaths,
    tiler: &str,
    format: TileOutputFormat,
    direct: bool,
) -> (r: Result<StagePlan, String>)
    ensures
        plan_result(r) == staged(*req, paths@, tiler@, format, direct),
{
    let crs = req.target_tile_crs.as_str();
    let input = req.input_path.as_str();
    if same_text(crs, "wgs84") {
        if direct {
            let tile = tile_spec(req, "tiles_wgs84", 40, tiler, "geodetic", format, input);
            return Ok(one_stage(tile, format));
        }
        let file = paths.wgs.as_str();
        let warp = warp_spec(req, "warp_wgs84", 35, "EPSG:4326", file);
        let tile = tile_spec(req, "tiles_wgs84", 40, tiler, "geodetic", format, file);
        return Ok(two_stages(warp, tile, file, format));
    }
    if same_text(crs, "webmercator") {
        if direct {
            let tile = tile_spec(req, "tiles_mercator", 40, tiler, "mercator", format, input);
            return Ok(one_stage(tile, format));
        }
        let file = paths.mercator.as_str();
        let warp = warp_spec(req, "warp_3857", 35, "EPSG:3857", file);
        let tile = tile_spec(req, "tiles_mercator", 40, tiler, "mercator", format, file);
        return Ok(two_stages(warp, tile, file, format));
    }
    if same_text(crs, "gcj02") {
        return match &req.gcj_bounds {
            None => Err("GCJ-02 模式必须提供左上右下坐标".to_string()),
            Some(bounds) => Ok(gcj_plan(req, bounds, paths, tiler, format)),
        };
    }
    Err(concat2("不支持的目标坐标系: ", crs))
}

/// What has been found out for the stages of a request: whether the working directory could be
/// made, what the default tiling tool and the one in use answered to a call for help, and what the
/// image is.
#[derive(Debug)]
pub struct StageFacts {
    pub work_dir: Option<Result<(), String>>,
    pub tiler_probe: Option<Result<ProcessOutput, String>>,
    pub format_probe: Option<Result<ProcessOutput, String>>,
    pub source: Option<Result<TifInfo, String>>,
}

/// What is to be found out next for the stages of a request, or the stages.
#[derive(Debug)]
pub enum StageStep {
    /// Make this directory.
    MakeDir(String),
    /// Ask `gdal2tiles` for help. It lies in the directory of the request, or in the one that the
    /// search for the tools finds.
    ProbeTiler,
    /// Ask this tool for help. It lies in the directory of the request.
    ProbeFormat(String),
    /// Inspect this image.
    Inspect(String),
    Done(Result<StagePlan, String>),
}

/// The content of a [`StageStep`].
pub ghost enum StageStepView {
    MakeDir(Seq<char>),
    ProbeTiler,
    ProbeFormat(Seq<char>),
    Inspect(Seq<char>),
    Done(Result<PlanView, Seq<char>>),
}

impl View for StageStep {
    type V = StageStepView;

    open spec fn view(&self) -> StageStepView {
        match *self {
            StageStep::MakeDir(dir) => StageStepView::MakeDir(dir@),
            StageStep::ProbeTiler => StageStepView::ProbeTiler,
            StageStep::ProbeFormat(tool) => StageStepView::ProbeFormat(tool@),
            StageStep::Inspect(path) => StageStepView::Inspect(path@),
            StageStep::Done(r) => StageStepView::Done(plan_result(r)),
        }
    }
}

/// The stages depend on the system of the image: for targets that the image may be in already.
pub open spec fn source_matters(crs: Seq<char>) -> bool {
    crs == "wgs84"@ || crs == "webmercator"@
}

/// The image is in the target system already.
pub open spec fn is_direct(crs: Seq<char>, info: TifInfo) -> bool {
    if crs == "wgs84"@ {
        is_geographic(wkt_text(info))
    } else {
        is_web_mercator(wkt_text(info))
    }
}

/// What follows once the tiling tool is known: its format is found out, then the image, where that
/// matters.
pub open spec fn step_with_tiler(
    req: TileJobRequest,
    facts: StageFacts,
    paths: PathsView,
    tiler: Seq<char>,
) -> StageStepView {
    let crs = req.target_tile_crs@;
    match facts.format_probe {
        None => StageStepView::ProbeFormat(tiler),
        Some(probe) => match format_result(probe) {
            Err(e) => StageStepView::Done(Err(e)),
            Ok(format) => if source_matters(crs) {
                match facts.source {
                    None => StageStepView::Inspect(req.input_path@),
                    Some(Err(e)) => StageStepView::Done(Err(e@)),
                    Some(Ok(info)) => StageStepView::Done(
                        staged(req, paths, tiler, format, is_direct(crs, info)),
                    ),
                }
            } else {
                StageStepView::Done(staged(req, paths, tiler, format, false))
            },
        },
    }
}

/// How the stages of a request are found: the working directory is made, then the tiling tool is
/// looked for unless the request names it, then its format and the image are found out. The first
/// thing that fails ends it.
pub open spec fn stage_step(req: TileJobRequest, facts: StageFacts, paths: PathsView) -> StageStepView {
    match facts.work_dir {
        None => StageStepView::MakeDir(work_dir_of(req)),
        Some(Err(e)) => StageStepView::Done(
            Err("无法创建目录 "@ + work_dir_of(req) + ": "@ + e@),
        ),
        Some(Ok(_)) => match req.gdal2tiles_cmd {
            Some(tiler) => step_with_tiler(req, facts, paths, tiler@),
            None => match facts.tiler_probe {
                None => StageStepView::ProbeTiler,
                Some(probe) => step_with_tiler(req, facts, paths, tiler_name(probe)),
            },
        },
    }
}

/// The error of a directory that could not be made.
pub fn directory_failure(path: &str, err: &str) -> (r: String)
    ensures
        r@ == "无法创建目录 "@ + path@ + ": "@ + err@,
{
    concat4("无法创建目录 ", path, ": ", err)
}

fn next_with_tiler(req: &TileJobRequest, facts: &StageFacts, paths: &StagePaths, tiler: &str) -> (r:
    StageStep)
    ensures
        r@ == step_with_tiler(*req, *facts, paths@, tiler@),
{
    match &facts.format_probe {
        None => StageStep::ProbeFormat(tiler.to_string()),
        Some(probe) => match resolve_tile_output_format(probe) {
            Err(e) => StageStep::Done(Err(e)),
            Ok(format) => {
                let crs = req.target_tile_crs.as_str();
                let wgs84 = same_text(crs, "wgs84");
                if wgs84 || same_text(crs, "webmercator") {
                    match &facts.source {
                        None => StageStep::Inspect(req.input_path.clone()),
                        Some(Err(e)) => StageStep::Done(Err(e.clone())),
                        Some(Ok(info)) => {
                            let direct = if wgs84 {
                                is_source_wgs84(info)
                            } else {
                                is_source_web_mercator(info)
                            };
                            StageStep::Done(stage_plan(req, paths, tiler, format, direct))
                        },
                    }
                } else {
                    StageStep::Done(stage_plan(req, paths, tiler, format, false))
                }
            },
        },
    }
}

/// The next step on the way to the stages of a request, given what has been found out.
pub fn build_stages(req: &TileJobRequest, facts: &StageFacts) -> (r: StageStep)
    ensures
        exists|paths: PathsView|
            paths_fit(*req, paths) && r@ == #[trigger] stage_step(*req, *facts, paths),
{
    let paths = stage_paths(req);
    let r = match &facts.work_dir {
        None => StageStep::MakeDir(work_dir(req).to_string()),
        Some(Err(e)) => StageStep::Done(Err(directory_failure(work_dir(req), e.as_str()))),
        Some(Ok(_)) => match &req.gdal2tiles_cmd {
            Some(tiler) => next_with_tiler(req, facts, &paths, tiler.as_str()),
            None => match &facts.tiler_probe {
                None => StageStep::ProbeTiler,
                Some(probe) => next_with_tiler(req, facts, &paths, default_tiler(probe)),
            },
        },
    };
    assert(r@ == stage_step(*req, *facts, paths@));
    r
}

// Laws.

/// The file that a stage reads: the last argument but one.
pub open spec fn stage_input(s: StageView) -> Seq<char> {
    s.args[s.args.len() - 2]
}

/// The file or directory that a stage writes: the last argument.
pub open spec fn stage_output(s: StageView) -> Seq<char> {
    s.args[s.args.len() - 1]
}

/// The stages of a job form a chain from the image to the output directory: the first stage reads
/// the image, each other stage reads what the one before it wrote, the last writes the tiles, and
/// what the others write are the files to be cleared away.
pub proof fn stages_form_a_chain(
    req: TileJobRequest,
    paths: PathsView,
    tiler: Seq<char>,
    format: TileOutputFormat,
    direct: bool,
)
    ensures
        staged(req, paths, tiler, format, direct) matches Ok(plan) ==> {
            let stages = plan.stages;
            &&& stages.len() >= 1
            &&& stage_input(stages[0]) == req.input_path@
            &&& forall|i: int|
                0 <= i < stages.len() - 1 ==> stage_output(#[trigger] stages[i]) == stage_input(
                    stages[i + 1],
                ) && stage_output(stages[i]) == plan.intermediates[i]
            &&& stage_output(stages.last()) == req.output_dir@
            &&& stages.last().command == tiler
            &&& plan.intermediates.len() == stages.len() - 1
            &&& plan.format == format
        },
{
}

/// The progress of a job runs through its stages without gaps or overlaps and ends at 100.
pub proof fn progress_ranges_are_contiguous(
    req: TileJobRequest,
    paths: PathsView,
    tiler: Seq<char>,
    format: TileOutputFormat,
    direct: bool,
)
    ensures
        staged(req, paths, tiler, format, direct) matches Ok(plan) ==> {
            let stages = plan.stages;
            &&& stages.len() >= 1
            &&& stages[0].progress_start == if stages.len() == 1 {
                40u8
            } else {
                5u8
            }
            &&& forall|i: int|
                0 <= i < stages.len() - 1 ==> (#[trigger] stages[i]).progress_start
                    + stages[i].progress_span == stages[i + 1].progress_start
            &&& stages.last().progress_start + stages.last().progress_span == 100
        },
{
}

/// The tiling tool never writes files for other programs and never a page to view the tiles, and
/// numbers the rows from the top.
pub proof fn tiles_come_without_extras(
    req: TileJobRequest,
    paths: PathsView,
    tiler: Seq<char>,
    format: TileOutputFormat,
    direct: bool,
)
    ensures
        staged(req, paths, tiler, format, direct) matches Ok(plan) ==> {
            let args = plan.stages.last().args;
            &&& args.contains("--no-kml"@)
            &&& args.contains("--xyz"@)
            &&& args[11] == "-w"@ && args[12] == "none"@
            &&& args[4] == "--tiledriver"@ && args[5] == format.driver_text()
        },
{
    if let Ok(plan) = staged(req, paths, tiler, format, direct) {
        let args = plan.stages.last().args;
        assert(args[3] == "--no-kml"@);
        assert(args[2] == "--xyz"@);
    }
}

/// The warp of a job checks the disk space unless the request tells it not to.
pub proof fn disk_check_is_skipped_only_on_request(
    req: TileJobRequest,
    paths: PathsView,
    tiler: Seq<char>,
    format: TileOutputFormat,
    direct: bool,
)
    ensures
        staged(req, paths, tiler, format, direct) matches Ok(plan) ==> plan.stages.len() > 1 ==> {
            let args = plan.stages[0].args;
            &&& plan.stages[0].command == "gdalwarp"@
            &&& args.take(3) == seq!["--config"@, "CHECK_DISK_FREE_SPACE"@, "FALSE"@]
                <==> req.skip_disk_space_check
        },
{
    reveal_strlit("--config");
    reveal_strlit("-multi");
    if let Ok(plan) = staged(req, paths, tiler, format, direct) {
        if plan.stages.len() > 1 {
            let args = plan.stages[0].args;
            if req.skip_disk_space_check {
                assert(args.take(3) =~= seq!["--config"@, "CHECK_DISK_FREE_SPACE"@, "FALSE"@]);
            } else {
                assert(args.take(3)[0] == "-multi"@);
                assert("-multi"@.len() != "--config"@.len());
            }
        }
    }
}

/// A job for GCJ-02 without the corners of the image is refused.
pub proof fn gcj_job_needs_bounds(
    req: TileJobRequest,
    paths: PathsView,
    tiler: Seq<char>,
    format: TileOutputFormat,
    direct: bool,
)
    requires
        req.target_tile_crs@ == "gcj02"@,
    ensures
        staged(req, paths, tiler, format, direct) is Err <==> req.gcj_bounds is None,
{
    reveal_strlit("gcj02");
    reveal_strlit("wgs84");
    reveal_strlit("webmercator");
    assert("gcj02"@[0] != "wgs84"@[0]);
    assert("gcj02"@.len() != "webmercator"@.len());
}

/// An image in a projected system is never taken for one in a geographic system, whatever stands
/// inside its description.
pub proof fn projected_is_not_geographic(wkt: Seq<char>)
    requires
        ({
            let head = ascii_upper(trim_start_by(wkt, CharClass::WhiteSpace));
            begins_with(head, "PROJCRS["@) || begins_with(head, "PROJCS["@)
        }),
    ensures
        !is_geographic(wkt),
{
    reveal_strlit("PROJCRS[");
    reveal_strlit("PROJCS[");
    reveal_strlit("GEOGCRS[");
    reveal_strlit("GEOGCS[");
    let head = ascii_upper(trim_start_by(wkt, CharClass::WhiteSpace));
    assert(forall|pat: Seq<char>| pat.len() > 0 && #[trigger] begins_with(head, pat) ==> head[0]
        == pat[0]) by {
        assert forall|pat: Seq<char>| pat.len() > 0 && #[trigger] begins_with(head, pat) implies head[0]
            == pat[0] by {
            assert(head.subrange(0, pat.len() as int)[0] == head[0]);
        }
    }
}

/// A tool that can write WebP is made to write it, whatever else it can write.
pub proof fn webp_is_preferred(before: Seq<char>, after: Seq<char>)
    ensures
        format_in(before + "webp"@ + after) == Some(TileOutputFormat::Webp),
        format_in(before + "WEBP"@ + after) == Some(TileOutputFormat::Webp),
{
    reveal_strlit("webp");
    reveal_strlit("WEBP");
    let n = before.len() as int;
    assert(text_at(ascii_upper(before + "webp"@ + after), "WEBP"@, n)) by {
        assert(ascii_upper(before + "webp"@ + after).subrange(n, n + 4) =~= "WEBP"@);
    }
    assert(text_at(ascii_upper(before + "WEBP"@ + after), "WEBP"@, n)) by {
        assert(ascii_upper(before + "WEBP"@ + after).subrange(n, n + 4) =~= "WEBP"@);
    }
}

/// How many things are still to be found out for the stages of a request.
pub open spec fn facts_missing(f: StageFacts) -> int {
    (if f.work_dir is None {
        1int
    } else {
        0
    }) + (if f.tiler_probe is None {
        1int
    } else {
        0
    }) + (if f.format_probe is None {
        1int
    } else {
        0
    }) + (if f.source is None {
        1int
    } else {
        0
    })
}

/// The stages of a request are found after four steps at most: each step finds out one thing that
/// was not known.
pub proof fn stages_are_found_in_four_steps(
    req: TileJobRequest,
    f: StageFacts,
    g: StageFacts,
    paths: PathsView,
)
    requires
        match stage_step(req, f, paths) {
            StageStepView::MakeDir(_) => g.work_dir is Some && g == (StageFacts {
                work_dir: g.work_dir,
                ..f
            }),
            StageStepView::ProbeTiler => g.tiler_probe is Some && g == (StageFacts {
                tiler_probe: g.tiler_probe,
                ..f
            }),
            StageStepView::ProbeFormat(_) => g.format_probe is Some && g == (StageFacts {
                format_probe: g.format_probe,
                ..f
            }),
            StageStepView::Inspect(_) => g.source is Some && g == (StageFacts {
                source: g.source,
                ..f
            }),
            StageStepView::Done(_) => false,
        },
    ensures
        0 <= facts_missing(g) < facts_missing(f) <= 4,
{
}

/// The option stands in the arguments, directly followed by its value.
pub open spec fn has_option(args: Seq<Seq<char>>, option: Seq<char>, value: Seq<char>) -> bool {
    exists|i: int| 0 <= i < args.len() - 1 && #[trigger] args[i] == option && args[i + 1] == value
}

proof fn lemma_targets_differ()
    ensures
        "gcj02"@ != "wgs84"@,
        "gcj02"@ != "webmercator"@,
        "wgs84"@ != "webmercator"@,
{
    reveal_strlit("gcj02");
    reveal_strlit("wgs84");
    reveal_strlit("webmercator");
    assert("gcj02"@[0] != "wgs84"@[0]);
    assert("gcj02"@.len() != "webmercator"@.len());
    assert("wgs84"@.len() != "webmercator"@.len());
}

/// A job can be planned exactly for the three targets, for GCJ-02 only with the corners of the
/// image. An image that is in the target system already is cut as it is, in one stage; any other
/// needs a warp before; and for GCJ-02 the new corners come between the two, whatever the image.
pub proof fn targets_have_their_stages(
    req: TileJobRequest,
    paths: PathsView,
    tiler: Seq<char>,
    format: TileOutputFormat,
    direct: bool,
)
    ensures
        staged(req, paths, tiler, format, direct) is Ok <==> (req.target_tile_crs@ == "wgs84"@
            || req.target_tile_crs@ == "webmercator"@ || (req.target_tile_crs@ == "gcj02"@
            && req.gcj_bounds is Some)),
        staged(req, paths, tiler, format, direct) matches Ok(plan) ==> plan.stages.len() == (
        if req.target_tile_crs@ == "gcj02"@ {
            3int
        } else if direct {
            1int
        } else {
            2int
        }),
        staged(req, paths, tiler, format, direct) matches Ok(plan) ==> forall|i: int|
            0 <= i < plan.stages.len() ==> (#[trigger] plan.stages[i]).command == (if i
                == plan.stages.len() - 1 {
                tiler
            } else if i == 0 {
                "gdalwarp"@
            } else {
                "gdal_translate"@
            }),
        staged(req, paths, tiler, format, direct) matches Err(e) ==> e == (
        if req.target_tile_crs@ == "gcj02"@ {
            "GCJ-02 模式必须提供左上右下坐标"@
        } else {
            "不支持的目标坐标系: "@ + req.target_tile_crs@
        }),
{
    lemma_targets_differ();
}

/// The warp of a job goes into the system that the next stage takes for granted: into degrees for
/// tiles of WGS 84 and for an image that gets new corners in degrees, into the metres of web maps
/// for tiles of web maps. The image is the file to read, and the file between the stages the one
/// to write.
pub proof fn warp_goes_into_the_system_of_the_target(
    req: TileJobRequest,
    paths: PathsView,
    tiler: Seq<char>,
    format: TileOutputFormat,
    direct: bool,
)
    ensures
        staged(req, paths, tiler, format, direct) matches Ok(plan) ==> plan.stages.len() > 1 ==> {
            let args = plan.stages[0].args;
            let n = args.len();
            &&& args[n - 4] == "-t_srs"@
            &&& req.target_tile_crs@ == "wgs84"@ ==> args[n - 3] == "EPSG:4326"@
            &&& req.target_tile_crs@ == "gcj02"@ ==> args[n - 3] == "EPSG:4326"@
            &&& req.target_tile_crs@ == "webmercator"@ ==> args[n - 3] == "EPSG:3857"@
            &&& args[n - 2] == req.input_path@
            &&& args[n - 1] == plan.intermediates[0]
            &&& args[n - 6] == "-of"@ && args[n - 5] == "VRT"@
            &&& args[n - 8] == "-wo"@ && args[n - 7] == "NUM_THREADS=ALL_CPUS"@
            &&& args[n - 9] == "-multi"@
            &&& n == if req.skip_disk_space_check {
                12int
            } else {
                9int
            }
        },
{
    lemma_targets_differ();
}

/// An image for GCJ-02 gets the corners of the request, in degrees: the upper left one, then the
/// lower right one, each as it was given.
pub proof fn gcj_corners_are_those_of_the_request(
    req: TileJobRequest,
    paths: PathsView,
    tiler: Seq<char>,
    format: TileOutputFormat,
    direct: bool,
    bounds: GcjBounds,
)
    requires
        req.target_tile_crs@ == "gcj02"@,
        req.gcj_bounds == Some(bounds),
    ensures
        staged(req, paths, tiler, format, direct) matches Ok(plan) && {
            let warp = plan.stages[0].args;
            let tag = plan.stages[1].args;
            &&& plan.stages.len() == 3
            &&& tag.len() == 11
            &&& has_option(tag, "-a_srs"@, "EPSG:4326"@)
            &&& has_option(tag, "-of"@, "VRT"@)
            &&& tag[4] == "-a_ullr"@
            &&& tag[5] == bounds.ulx@
            &&& tag[6] == bounds.uly@
            &&& tag[7] == bounds.lrx@
            &&& tag[8] == bounds.lry@
            &&& tag[9] == warp[warp.len() - 1]
            &&& tag[10] == plan.stages[2].args[13]
            &&& plan.intermediates == seq![warp[warp.len() - 1], tag[10]]
        },
{
    lemma_targets_differ();
    let plan = staged(req, paths, tiler, format, direct)->Ok_0;
    let tag = plan.stages[1].args;
    assert(tag[2] == "-a_srs"@ && tag[2int + 1] == "EPSG:4326"@);
    assert(tag[0] == "-of"@ && tag[0int + 1] == "VRT"@);
}

/// The tiles lie in the grid of the target: that of degrees for WGS 84, that of web maps for web
/// maps and GCJ-02. They are written in the format of the job, for all levels of the request and no
/// other, with the resampling of the request or the average, by four processes, into the output
/// directory.
pub proof fn tiles_are_cut_as_requested(
    req: TileJobRequest,
    paths: PathsView,
    tiler: Seq<char>,
    format: TileOutputFormat,
    direct: bool,
)
    ensures
        staged(req, paths, tiler, format, direct) matches Ok(plan) ==> {
            let args = plan.stages.last().args;
            &&& args.len() == 15
            &&& args[0] == "-p"@
            &&& req.target_tile_crs@ == "wgs84"@ ==> args[1] == "geodetic"@
            &&& req.target_tile_crs@ == "webmercator"@ ==> args[1] == "mercator"@
            &&& req.target_tile_crs@ == "gcj02"@ ==> args[1] == "mercator"@
            &&& args[2] == "--xyz"@
            &&& args[3] == "--no-kml"@
            &&& args[4] == "--tiledriver"@
            &&& format == TileOutputFormat::Webp ==> args[5] == "WEBP"@
            &&& format == TileOutputFormat::Jpeg ==> args[5] == "JPEG"@
            &&& args[6] == "-z"@
            &&& args[7] == decimal(req.zoom_min as nat) + seq!['-'] + decimal(req.zoom_max as nat)
            &&& args[8] == "-r"@
            &&& req.resampling matches Some(r) ==> args[9] == r@
            &&& req.resampling is None ==> args[9] == "average"@
            &&& args[10] == "--processes=4"@
            &&& args[11] == "-w"@ && args[12] == "none"@
            &&& args[13] == (if plan.stages.len() == 1 {
                req.input_path@
            } else {
                plan.intermediates.last()
            })
            &&& args[14] == req.output_dir@
            &&& plan.format == format
        },
{
    lemma_targets_differ();
    reveal_strlit("-");
    assert("-"@ =~= seq!['-']);
}

/// The stages carry the names and the shares of the progress that the front end knows.
pub proof fn stages_have_their_names_and_shares(
    req: TileJobRequest,
    paths: PathsView,
    tiler: Seq<char>,
    format: TileOutputFormat,
    direct: bool,
)
    ensures
        staged(req, paths, tiler, format, direct) matches Ok(plan) ==> {
            let first = plan.stages[0];
            let last = plan.stages.last();
            &&& req.target_tile_crs@ == "wgs84"@ ==> last.stage == "tiles_wgs84"@
                && last.progress_start == 40 && (!direct ==> first.stage == "warp_wgs84"@)
            &&& req.target_tile_crs@ == "webmercator"@ ==> last.stage == "tiles_mercator"@
                && last.progress_start == 40 && (!direct ==> first.stage == "warp_3857"@)
            &&& req.target_tile_crs@ == "gcj02"@ ==> last.stage == "tiles_gaode_xyz"@
                && last.progress_start == 55 && first.stage == "warp_wgs84"@
                && plan.stages[1].stage == "tag_gcj_bounds"@ && plan.stages[1].progress_start == 30
            &&& plan.stages.len() > 1 ==> first.progress_start == 5
            &&& last.progress_start + last.progress_span == 100
        },
{
    lemma_targets_differ();
}

/// A request is served exactly where its levels are in order and 24 at most and its image exists.
/// Of several faults the one of the levels is told first, and the image last.
pub proof fn faults_of_a_request(req: TileJobRequest, input_exists: bool)
    ensures
        request_fault(req, input_exists) is None <==> req.zoom_min <= req.zoom_max <= 24
            && input_exists,
        req.zoom_min > req.zoom_max ==> request_fault(req, input_exists) == Some(
            "最小缩放级别不能大于最大缩放级别"@,
        ),
        req.zoom_min <= req.zoom_max && req.zoom_max > 24 ==> request_fault(req, input_exists)
            == Some("最大缩放级别不应超过 24"@),
        req.zoom_min <= req.zoom_max <= 24 && !input_exists ==> request_fault(req, input_exists)
            == Some("输入文件不存在: "@ + req.input_path@),
{
}

/// The extension of a tile goes with the driver that writes it.
pub proof fn extension_goes_with_the_driver(format: TileOutputFormat)
    ensures
        format.driver_text() == "WEBP"@ <==> format.extension_text() == "webp"@,
        format.driver_text() == "JPEG"@ <==> format.extension_text() == "jpg"@,
        format == TileOutputFormat::Webp ==> format.driver_text() == "WEBP"@,
        format == TileOutputFormat::Jpeg ==> format.driver_text() == "JPEG"@,
{
    reveal_strlit("WEBP");
    reveal_strlit("JPEG");
    reveal_strlit("webp");
    reveal_strlit("jpg");
    assert("WEBP"@[0] != "JPEG"@[0]);
    assert("webp"@.len() != "jpg"@.len());
}

proof fn lemma_upper_has(before: Seq<char>, word: Seq<char>, after: Seq<char>)
    ensures
        has_text(ascii_upper(before + word + after), ascii_upper(word)),
{
    let n = before.len() as int;
    let whole = ascii_upper(before + word + after);
    assert(whole.subrange(n, n + word.len()) =~= ascii_upper(word));
    assert(text_at(whole, ascii_upper(word), n));
}

/// The help of a tool decides on the format, whatever the case of its letters: a mention of WebP
/// means WebP; without one, a mention of JPEG or JPG means JPEG; and without any there is none.
pub proof fn help_decides_on_the_format(before: Seq<char>, word: Seq<char>, after: Seq<char>)
    ensures
        ascii_upper(word) == "WEBP"@ ==> format_in(before + word + after) == Some(
            TileOutputFormat::Webp,
        ),
        ascii_upper(word) == "JPEG"@ || ascii_upper(word) == "JPG"@ ==> format_in(
            before + word + after,
        ) is Some,
        format_in(before + word + after) == Some(TileOutputFormat::Jpeg) ==> !has_text(
            ascii_upper(before + word + after),
            "WEBP"@,
        ),
        !has_text(ascii_upper(before), "WEBP"@) && !has_text(ascii_upper(before), "JPEG"@)
            && !has_text(ascii_upper(before), "JPG"@) ==> format_in(before) is None,
        !has_text(ascii_upper(before), "WEBP"@) && (has_text(ascii_upper(before), "JPEG"@)
            || has_text(ascii_upper(before), "JPG"@)) ==> format_in(before) == Some(
            TileOutputFormat::Jpeg,
        ),
{
    lemma_upper_has(before, word, after);
}

/// A tool that speaks of WebP in either of its outputs is made to write it, whether it succeeded or
/// not; one that could not be started, or that knows neither format, is an error.
pub proof fn either_output_decides_on_the_format(
    output: ProcessOutput,
    before: Seq<char>,
    after: Seq<char>,
    failure: String,
)
    ensures
        lossy_text(output.stdout@) == before + "WEBP"@ + after || lossy_text(output.stderr@) == before
            + "WEBP"@ + after ==> format_result(Ok(output)) == Ok::<TileOutputFormat, Seq<char>>(
            TileOutputFormat::Webp,
        ),
        format_result(Err(failure)) == Err::<TileOutputFormat, Seq<char>>(
            "检测 gdal2tiles 输出格式失败: "@ + failure@,
        ),
        format_result(Ok(output)) is Err ==> format_result(Ok(output))->Err_0
            == "当前 gdal2tiles 不支持 WEBP/JPEG tiledriver，无法按要求切图"@,
{
    reveal_strlit("WEBP");
    assert(ascii_upper("WEBP"@) =~= "WEBP"@);
    let out = lossy_text(output.stdout@);
    let err = lossy_text(output.stderr@);
    let whole = out + "\n"@ + err;
    if out == before + "WEBP"@ + after {
        let rest = after + "\n"@ + err;
        assert(whole =~= before + "WEBP"@ + rest);
        help_decides_on_the_format(before, "WEBP"@, rest);
    }
    if err == before + "WEBP"@ + after {
        let front = out + "\n"@ + before;
        assert(whole =~= front + "WEBP"@ + after);
        help_decides_on_the_format(front, "WEBP"@, after);
    }
}

/// The tiling program is used exactly where it answers; else its script is.
pub proof fn tiler_falls_back_to_the_script(probe: Result<ProcessOutput, String>)
    ensures
        (probe matches Ok(output) && output.success) ==> tiler_name(probe) == "gdal2tiles"@,
        !(probe matches Ok(output) && output.success) ==> tiler_name(probe) == "gdal2tiles.py"@,
{
}

/// A description that begins with a geographic system is one of a geographic system, whatever white
/// space stands before it and whatever follows; any other beginning is not.
pub proof fn geographic_systems_are_known_by_their_begin(wkt: Seq<char>)
    ensures
        is_geographic(wkt) <==> ({
            let head = ascii_upper(trim_start_by(wkt, CharClass::WhiteSpace));
            text_at(head, "GEOGCRS["@, 0) || text_at(head, "GEOGCS["@, 0)
        }),
{
}

/// An image without a description is neither geographic nor one of web maps.
pub proof fn unknown_systems_are_warped(info: TifInfo)
    requires
        info.coordinate_system is None,
    ensures
        !is_geographic(wkt_text(info)),
        !is_web_mercator(wkt_text(info)),
{
    reveal_strlit("");
    reveal_strlit("GEOGCRS[");
    reveal_strlit("GEOGCS[");
    reveal_strlit("ID[\"EPSG\",3857]");
    assert(wkt_text(info) =~= Seq::<char>::empty());
}

/// A description names the projection of web maps exactly where it holds its number, in whatever
/// case.
pub proof fn web_maps_are_known_by_their_number(before: Seq<char>, word: Seq<char>, after: Seq<char>)
    ensures
        ascii_upper(word) == "ID[\"EPSG\",3857]"@ ==> is_web_mercator(before + word + after),
        is_web_mercator(before) ==> has_text(ascii_upper(before), "ID[\"EPSG\",3857]"@),
{
    lemma_upper_has(before, word, after);
}

/// The way to the stages: the working directory is that of the request, or else the output
/// directory; a tool that the request names is taken as it is and no other is looked for; the image
/// is looked at only for the two targets that it may be in already; and the stages are those for the
/// tool, for the format that its help tells and for the system that the image is in.
pub proof fn stages_follow_from_what_is_found(
    req: TileJobRequest,
    facts: StageFacts,
    paths: PathsView,
)
    ensures
        facts.work_dir is None ==> stage_step(req, facts, paths) == StageStepView::MakeDir(
            match req.working_dir {
                Some(dir) => dir@,
                None => req.output_dir@,
            },
        ),
        stage_step(req, facts, paths) is ProbeTiler ==> req.gdal2tiles_cmd is None
            && facts.tiler_probe is None,
        stage_step(req, facts, paths) matches StageStepView::ProbeFormat(tool) ==> (
        req.gdal2tiles_cmd matches Some(cmd) ==> tool == cmd@),
        stage_step(req, facts, paths) matches StageStepView::Inspect(path) ==> path
            == req.input_path@ && (req.target_tile_crs@ == "wgs84"@ || req.target_tile_crs@
            == "webmercator"@),
        stage_step(req, facts, paths) matches StageStepView::Done(Ok(plan)) ==> {
            &&& facts.work_dir matches Some(Ok(_))
            &&& req.gdal2tiles_cmd matches Some(cmd) ==> plan.stages.last().command == cmd@
            &&& facts.format_probe matches Some(probe) && format_result(probe) == Ok::<
                TileOutputFormat,
                Seq<char>,
            >(plan.format)
            &&& req.target_tile_crs@ == "wgs84"@ ==> (facts.source matches Some(Ok(info)) && (
            plan.stages.len() == 1 <==> is_geographic(wkt_text(info))))
            &&& req.target_tile_crs@ == "webmercator"@ ==> (facts.source matches Some(Ok(info)) && (
            plan.stages.len() == 1 <==> is_web_mercator(wkt_text(info))))
        },
        facts.work_dir matches Some(Err(e)) ==> stage_step(req, facts, paths)
            == StageStepView::Done(
            Err(
                "无法创建目录 "@ + (match req.working_dir {
                    Some(dir) => dir@,
                    None => req.output_dir@,
                }) + ": "@ + e@,
            ),
        ),
{
    lemma_targets_differ();
}

/// The files between the stages lie in the working directory of the request, or else in the output
/// directory. They are named after the image, or `input` where it has no name, and tell by their
/// names what they hold.
pub proof fn files_between_stages_are_named_after_the_image(req: TileJobRequest, paths: PathsView)
    requires
        paths_fit(req, paths),
    ensures
        ({
            let dir = match req.working_dir {
                Some(dir) => dir@,
                None => req.output_dir@,
            };
            let name = match paths.stem {
                Some(stem) => stem,
                None => "input"@,
            };
            &&& stem_outcome(req.input_path@, paths.stem)
            &&& joined(dir, name + "_wgs84.tif"@, paths.wgs)
            &&& joined(dir, name + "_3857.tif"@, paths.mercator)
            &&& joined(dir, name + "_gcj_tagged.tif"@, paths.gcj)
        }),
{
}

/// The stages write the files that are made for them: degrees into the one for WGS 84, web maps into
/// that for web maps, and new corners into that for GCJ-02.
pub proof fn stages_write_the_files_made_for_them(
    req: TileJobRequest,
    paths: PathsView,
    tiler: Seq<char>,
    format: TileOutputFormat,
    direct: bool,
)
    ensures
        staged(req, paths, tiler, format, direct) matches Ok(plan) ==> plan.intermediates == (
        if req.target_tile_crs@ == "gcj02"@ {
            seq![paths.wgs, paths.gcj]
        } else if direct {
            Seq::empty()
        } else if req.target_tile_crs@ == "wgs84"@ {
            seq![paths.wgs]
        } else {
            seq![paths.mercator]
        }),
{
    lemma_targets_differ();
}

/// The tiling tool of a request that names none is the program where it has answered, and else the
/// script: it is the one whose help is asked for, and the one that cuts the tiles.
pub proof fn tiler_that_answers_is_used(
    req: TileJobRequest,
    facts: StageFacts,
    paths: PathsView,
    probe: Result<ProcessOutput, String>,
)
    requires
        facts.work_dir matches Some(Ok(_)),
        req.gdal2tiles_cmd is None,
    ensures
        facts.tiler_probe is None ==> stage_step(req, facts, paths) is ProbeTiler,
        facts.tiler_probe == Some(probe) ==> {
            let tiler = if probe matches Ok(output) && output.success {
                "gdal2tiles"@
            } else {
                "gdal2tiles.py"@
            };
            &&& facts.format_probe is None ==> stage_step(req, facts, paths)
                == StageStepView::ProbeFormat(tiler)
            &&& stage_step(req, facts, paths) matches StageStepView::Done(Ok(plan))
                ==> plan.stages.last().command == tiler
        },
{
    lemma_targets_differ();
}

/// What cannot be found out ends the planning: a format that the tool does not have, and an image that
/// cannot be read where its system matters.
pub proof fn planning_ends_with_what_fails(
    req: TileJobRequest,
    facts: StageFacts,
    paths: PathsView,
    cmd: String,
    probe: Result<ProcessOutput, String>,
)
    requires
        facts.work_dir matches Some(Ok(_)),
        req.gdal2tiles_cmd == Some(cmd),
    ensures
        facts.format_probe is None ==> stage_step(req, facts, paths) == StageStepView::ProbeFormat(
            cmd@,
        ),
        facts.format_probe == Some(probe) ==> match format_result(probe) {
            Err(e) => stage_step(req, facts, paths) == StageStepView::Done(Err(e)),
            Ok(_) => {
                &&& req.target_tile_crs@ == "wgs84"@ || req.target_tile_crs@ == "webmercator"@ ==> (
                facts.source is None ==> stage_step(req, facts, paths) == StageStepView::Inspect(
                    req.input_path@,
                )) && (facts.source matches Some(Err(e)) ==> stage_step(req, facts, paths)
                    == StageStepView::Done(Err(e@)))
                &&& req.target_tile_crs@ != "wgs84"@ && req.target_tile_crs@ != "webmercator"@
                    ==> stage_step(req, facts, paths) is Done
            },
        },
{
    lemma_targets_differ();
}

/// What is planned for a request, as a whole: whatever was found out, the image goes into the system
/// of the target before it is cut, unless it is there already, and is cut in the grid of the target.
pub proof fn plans_fit_their_targets(req: TileJobRequest, facts: StageFacts, r: StageStep)
    requires
        call_ensures(build_stages, (&req, &facts), r),
    ensures
        r matches StageStep::Done(Ok(plan)) ==> {
            let crs = req.target_tile_crs@;
            let stages = plan@.stages;
            let last = stages.last().args;
            &&& crs == "wgs84"@ || crs == "webmercator"@ || crs == "gcj02"@
            &&& stages.len() > 1 ==> stages[0].command == "gdalwarp"@ && has_option(
                stages[0].args,
                "-t_srs"@,
                if crs == "webmercator"@ {
                    "EPSG:3857"@
                } else {
                    "EPSG:4326"@
                },
            )
            &&& last[0] == "-p"@
            &&& last[1] == (if crs == "wgs84"@ {
                "geodetic"@
            } else {
                "mercator"@
            })
            &&& crs == "gcj02"@ ==> stages.len() == 3 && stages[1].command == "gdal_translate"@
                && has_option(stages[1].args, "-a_srs"@, "EPSG:4326"@)
            &&& last[14] == req.output_dir@
        },
        r matches StageStep::MakeDir(dir) ==> dir@ == (match req.working_dir {
            Some(d) => d@,
            None => req.output_dir@,
        }),
{
    lemma_targets_differ();
    let paths = choose|paths: PathsView|
        paths_fit(req, paths) && r@ == #[trigger] stage_step(req, facts, paths);
    assert(r@ == stage_step(req, facts, paths));
    stages_follow_from_what_is_found(req, facts, paths);
    if let StageStep::Done(Ok(plan)) = r {
        let stages = plan@.stages;
        if stages.len() > 1 {
            let args = stages[0].args;
            let n = args.len() - 4;
            assert(args[n] == "-t_srs"@);
            assert(args[n + 1] == if req.target_tile_crs@ == "webmercator"@ {
                "EPSG:3857"@
            } else {
                "EPSG:4326"@
            });
        }
        if req.target_tile_crs@ == "gcj02"@ {
            let tag = stages[1].args;
            assert(tag[2] == "-a_srs"@ && tag[2int + 1] == "EPSG:4326"@);
        }
    }
}

} // verus!
