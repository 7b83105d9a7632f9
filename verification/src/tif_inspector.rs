//! What `gdalinfo` tells of an image, and whether the GDAL tools can be run.

use crate::json::double_at;
use crate::json::double_bits_at;
use crate::json::elements;
use crate::json::json_document;
use crate::json::json_get;
use crate::json::json_tree;
use crate::json::member;
use crate::json::parse_json;
use crate::json::text_value;
use crate::json::u64_at;
use crate::json::unsigned_at;
use crate::json::JsonTree;
use crate::text::concat2;
use crate::text::from_utf8_lossy;
use crate::text::lossy_text;
use crate::text::opt_text;
use crate::text::push_text;
use crate::text::texts;
use crate::text::trim;
use crate::text::trimmed;
use serde_json::Value;
use vstd::prelude::*;

verus! {

/// What a finished child process left behind.
#[derive(Debug, Clone)]
pub struct ProcessOutput {
    pub success: bool,
    pub stdout: Vec<u8>,
    pub stderr: Vec<u8>,
}

/// What is known of an image. Coordinates are doubles, held as their bits.
#[derive(Debug, Clone)]
pub struct TifInfo {
    pub path: String,
    pub size: [u64; 2],
    pub band_count: u64,
    pub coordinate_system: Option<String>,
    pub upper_left: Option<[u64; 2]>,
    pub lower_right: Option<[u64; 2]>,
    pub pixel_size: Option<[u64; 2]>,
}

/// The content of a [`TifInfo`].
pub ghost struct TifView {
    pub path: Seq<char>,
    pub size: (u64, u64),
    pub band_count: int,
    pub coordinate_system: Option<Seq<char>>,
    pub upper_left: Option<(u64, u64)>,
    pub lower_right: Option<(u64, u64)>,
    pub pixel_size: Option<(u64, u64)>,
}

/// The two numbers of a pair.
pub open spec fn pair(a: [u64; 2]) -> (u64, u64) {
    (a[0], a[1])
}

/// The two numbers of an optional pair.
pub open spec fn opt_pair(o: Option<[u64; 2]>) -> Option<(u64, u64)> {
    match o {
        Some(a) => Some(pair(a)),
        None => None,
    }
}

impl View for TifInfo {
    type V = TifView;

    open spec fn view(&self) -> TifView {
        TifView {
            path: self.path@,
            size: pair(self.size),
            band_count: self.band_count as int,
            coordinate_system: opt_text(self.coordinate_system),
            upper_left: opt_pair(self.upper_left),
            lower_right: opt_pair(self.lower_right),
            pixel_size: opt_pair(self.pixel_size),
        }
    }
}

/// The elements of the member under a key, where it is a list.
pub open spec fn list_member(t: JsonTree, key: Seq<char>) -> Option<Seq<JsonTree>> {
    match member(t, key) {
        Some(m) => elements(m),
        None => None,
    }
}

/// Width and height of the image, 0 for a number that is missing or no unsigned integer.
pub open spec fn doc_size(t: JsonTree) -> (u64, u64) {
    match list_member(t, "size"@) {
        Some(list) => (
            match unsigned_at(list, 0) {
                Some(n) => n,
                None => 0,
            },
            match unsigned_at(list, 1) {
                Some(n) => n,
                None => 0,
            },
        ),
        None => (0, 0),
    }
}

/// Two doubles of a list, where both are there.
pub open spec fn double_pair(list: Option<Seq<JsonTree>>, i: int, j: int) -> Option<(u64, u64)> {
    match list {
        Some(l) => match (double_at(l, i), double_at(l, j)) {
            (Some(x), Some(y)) => Some((x, y)),
            _ => None,
        },
        None => None,
    }
}

/// A corner of the image.
pub open spec fn doc_corner(t: JsonTree, key: Seq<char>) -> Option<(u64, u64)> {
    match member(t, "cornerCoordinates"@) {
        Some(corners) => double_pair(list_member(corners, key), 0, 1),
        None => None,
    }
}

/// The size of a pixel: the numbers at 1 and 5 of the geographic transformation.
pub open spec fn doc_pixel_size(t: JsonTree) -> Option<(u64, u64)> {
    double_pair(list_member(t, "geoTransform"@), 1, 5)
}

/// The coordinate system in WKT.
pub open spec fn doc_coordinate_system(t: JsonTree) -> Option<Seq<char>> {
    match member(t, "coordinateSystem"@) {
        Some(cs) => match member(cs, "wkt"@) {
            Some(wkt) => text_value(wkt),
            None => None,
        },
        None => None,
    }
}

/// What a document of `gdalinfo -json` tells of the image at a path.
pub open spec fn doc_info(path: Seq<char>, t: JsonTree) -> TifView {
    TifView {
        path,
        size: doc_size(t),
        band_count: match list_member(t, "bands"@) {
            Some(list) => list.len() as int,
            None => 0,
        },
        coordinate_system: doc_coordinate_system(t),
        upper_left: doc_corner(t, "upperLeft"@),
        lower_right: doc_corner(t, "lowerRight"@),
        pixel_size: doc_pixel_size(t),
    }
}

fn get_list<'a>(value: &'a Value, key: &str) -> (r: Option<&'a Vec<Value>>)
    ensures
        match r {
            Some(a) => list_member(json_tree(*value), key@) == Some(
                a@.map_values(|e: Value| json_tree(e)),
            ),
            None => list_member(json_tree(*value), key@) is None,
        },
{
    match json_get(value, key) {
        Some(m) => m.as_array(),
        None => None,
    }
}

/// Width and height of the image.
pub fn parse_size(value: &Value) -> (r: [u64; 2])
    ensures
        pair(r) == doc_size(json_tree(*value)),
{
    match get_list(value, "size") {
        Some(list) => {
            let width: u64 = u64_at(list, 0).unwrap_or(0);
            let height: u64 = u64_at(list, 1).unwrap_or(0);
            [width, height]
        },
        None => [0, 0],
    }
}

fn doubles_of(list: &Vec<Value>, i: usize, j: usize) -> (r: Option<[u64; 2]>)
    ensures
        opt_pair(r) == double_pair(
            Some(list@.map_values(|e: Value| json_tree(e))),
            i as int,
            j as int,
        ),
{
    match (double_bits_at(list, i), double_bits_at(list, j)) {
        (Some(x), Some(y)) => Some([x, y]),
        _ => None,
    }
}

/// A corner of the image.
pub fn parse_corner(value: &Value, key: &str) -> (r: Option<[u64; 2]>)
    ensures
        opt_pair(r) == doc_corner(json_tree(*value), key@),
{
    match json_get(value, "cornerCoordinates") {
        Some(corners) => match get_list(corners, key) {
            Some(list) => doubles_of(list, 0, 1),
            None => None,
        },
        None => None,
    }
}

/// The size of a pixel, with its signs.
pub fn parse_pixel_size(value: &Value) -> (r: Option<[u64; 2]>)
    ensures
        opt_pair(r) == doc_pixel_size(json_tree(*value)),
{
    match get_list(value, "geoTransform") {
        Some(list) => doubles_of(list, 1, 5),
        None => None,
    }
}

/// The coordinate system of the image in WKT.
pub fn parse_coordinate_system(value: &Value) -> (r: Option<String>)
    ensures
        opt_text(r) == doc_coordinate_system(json_tree(*value)),
{
    match json_get(value, "coordinateSystem") {
        Some(cs) => match json_get(cs, "wkt") {
            Some(wkt) => match wkt.as_str() {
                Some(s) => Some(s.to_string()),
                None => None,
            },
            None => None,
        },
        None => None,
    }
}

/// What a document of `gdalinfo -json` tells of the image at `path`.
pub fn tif_info(path: &str, value: &Value) -> (r: TifInfo)
    ensures
        r@ == doc_info(path@, json_tree(*value)),
{
    let band_count: u64 = match get_list(value, "bands") {
        Some(list) => list.len() as u64,
        None => 0,
    };
    TifInfo {
        path: path.to_string(),
        size: parse_size(value),
        band_count,
        coordinate_system: parse_coordinate_system(value),
        upper_left: parse_corner(value, "upperLeft"),
        lower_right: parse_corner(value, "lowerRight"),
        pixel_size: parse_pixel_size(value),
    }
}

/// What comes of a run of `gdalinfo -json` on `path`: the error of starting it, its own error
/// output, the error of reading its document, or what the document tells.
pub open spec fn inspected(path: Seq<char>, outcome: Result<ProcessOutput, String>) -> Result<
    TifView,
    Seq<char>,
> {
    match outcome {
        Err(e) => Err("执行 gdalinfo 失败: "@ + e@),
        Ok(output) => if !output.success {
            Err("gdalinfo 执行失败: "@ + lossy_text(output.stderr@))
        } else {
            match json_document(output.stdout@) {
                Err(e) => Err("解析 gdalinfo JSON 失败: "@ + e),
                Ok(t) => Ok(doc_info(path, t)),
            }
        },
    }
}

/// The view of a result of [`inspect_tif`].
pub open spec fn info_result(r: Result<TifInfo, String>) -> Result<TifView, Seq<char>> {
    match r {
        Ok(info) => Ok(info@),
        Err(e) => Err(e@),
    }
}

/// Reads what a run of `gdalinfo -json` on `path` has put out.
pub fn inspect_tif(path: &str, outcome: &Result<ProcessOutput, String>) -> (r: Result<
    TifInfo,
    String,
>)
    ensures
        info_result(r) == inspected(path@, *outcome),
{
    match outcome {
        Err(e) => Err(concat2("执行 gdalinfo 失败: ", e.as_str())),
        Ok(output) => {
            if !output.success {
                let stderr = from_utf8_lossy(&output.stderr);
                return Err(concat2("gdalinfo 执行失败: ", stderr.as_str()));
            }
            match parse_json(&output.stdout) {
                Err(e) => Err(concat2("解析 gdalinfo JSON 失败: ", e.as_str())),
                Ok(value) => Ok(tif_info(path, &value)),
            }
        },
    }
}

/// The arguments of `gdalinfo` for the image at `path`.
pub fn inspect_args(path: &str) -> (r: Vec<String>)
    ensures
        texts(r@) == seq!["-json"@, path@],
{
    let mut args: Vec<String> = Vec::new();
    push_text(&mut args, "-json");
    push_text(&mut args, path);
    args
}

/// Refuses an input file that does not exist.
pub fn check_input(path: &str, exists: bool) -> (r: Result<(), String>)
    ensures
        r is Ok <==> exists,
        r matches Err(e) ==> e@ == "输入文件不存在: "@ + path@,
{
    if !exists {
        return Err(concat2("输入文件不存在: ", path));
    }
    Ok(())
}

/// What to do next to inspect an image: look whether it is there, run `gdalinfo` with these
/// arguments, or end.
#[derive(Debug)]
pub enum InspectStep {
    CheckInput(String),
    Run(Vec<String>),
    Done(Result<TifInfo, String>),
}

/// The view of an [`InspectStep`].
pub ghost enum InspectStepView {
    CheckInput(Seq<char>),
    Run(Seq<Seq<char>>),
    Done(Result<TifView, Seq<char>>),
}

impl View for InspectStep {
    type V = InspectStepView;

    open spec fn view(&self) -> InspectStepView {
        match self {
            InspectStep::CheckInput(path) => InspectStepView::CheckInput(path@),
            InspectStep::Run(args) => InspectStepView::Run(texts(args@)),
            InspectStep::Done(result) => InspectStepView::Done(info_result(*result)),
        }
    }
}

/// The course of an inspection: a file that is not there ends it before `gdalinfo` runs.
pub open spec fn inspect_course(
    path: Seq<char>,
    exists: Option<bool>,
    outcome: Option<Result<ProcessOutput, String>>,
) -> InspectStepView {
    match (exists, outcome) {
        (None, _) => InspectStepView::CheckInput(path),
        (Some(false), _) => InspectStepView::Done(Err("输入文件不存在: "@ + path)),
        (Some(true), None) => InspectStepView::Run(seq!["-json"@, path]),
        (Some(true), Some(outcome)) => InspectStepView::Done(inspected(path, outcome)),
    }
}

/// The next step of inspecting the image at `path`, from whether it exists and what `gdalinfo` has
/// put out, as far as either is known.
pub fn inspect_step(
    path: &str,
    exists: Option<bool>,
    outcome: Option<&Result<ProcessOutput, String>>,
) -> (r: InspectStep)
    ensures
        r@ == inspect_course(
            path@,
            exists,
            match outcome {
                Some(o) => Some(*o),
                None => None,
            },
        ),
{
    match exists {
        None => InspectStep::CheckInput(path.to_string()),
        Some(found) => match check_input(path, found) {
            Err(e) => InspectStep::Done(Err(e)),
            Ok(()) => match outcome {
                None => InspectStep::Run(inspect_args(path)),
                Some(outcome) => InspectStep::Done(inspect_tif(path, outcome)),
            },
        },
    }
}

/// `gdalinfo` runs only on a file that is there, and an inspection succeeds only after it has run
/// without an error.
pub proof fn only_images_that_exist_are_read(
    path: Seq<char>,
    exists: Option<bool>,
    outcome: Option<Result<ProcessOutput, String>>,
)
    ensures
        inspect_course(path, exists, outcome) is Run ==> exists == Some(true),
        inspect_course(path, exists, outcome) matches InspectStepView::Done(Ok(_)) ==> (exists
            == Some(true) && (outcome matches Some(Ok(output)) && output.success)),
{
}

// Probing the tools.

/// The result of one probe: the tool, whether it ran, and what it said.
#[derive(Debug, Clone)]
pub struct GdalCheckResult {
    pub tool: String,
    pub ok: bool,
    pub detail: String,
}

/// The content of a [`GdalCheckResult`].
pub ghost struct CheckView {
    pub tool: Seq<char>,
    pub ok: bool,
    pub detail: Seq<char>,
}

impl View for GdalCheckResult {
    type V = CheckView;

    open spec fn view(&self) -> CheckView {
        CheckView { tool: self.tool@, ok: self.ok, detail: self.detail@ }
    }
}

/// The contents of a list of results.
pub open spec fn checks(v: Seq<GdalCheckResult>) -> Seq<CheckView> {
    v.map_values(|c: GdalCheckResult| c@)
}

/// What a probe run shows: its output where it succeeded, its error output where it failed, and
/// the error of starting it otherwise; without white space around it, but for the last.
pub open spec fn probed(tool: Seq<char>, outcome: Result<ProcessOutput, String>) -> CheckView {
    match outcome {
        Ok(output) => if output.success {
            CheckView { tool, ok: true, detail: trimmed(lossy_text(output.stdout@)) }
        } else {
            CheckView { tool, ok: false, detail: trimmed(lossy_text(output.stderr@)) }
        },
        Err(e) => CheckView { tool, ok: false, detail: e@ },
    }
}

/// The result of a probe run that started: `output` is what it put out, or its error output where
/// it failed.
pub fn probe_report(tool: &str, ok: bool, output: &str) -> (r: GdalCheckResult)
    ensures
        r@ == (CheckView { tool: tool@, ok, detail: trimmed(output@) }),
{
    GdalCheckResult { tool: tool.to_string(), ok, detail: trim(output) }
}

/// The result of a probe of a tool.
pub fn run_probe(tool: &str, outcome: &Result<ProcessOutput, String>) -> (r: GdalCheckResult)
    ensures
        r@ == probed(tool@, *outcome),
{
    match outcome {
        Ok(output) => {
            if output.success {
                probe_report(tool, true, from_utf8_lossy(&output.stdout).as_str())
            } else {
                probe_report(tool, false, from_utf8_lossy(&output.stderr).as_str())
            }
        },
        Err(e) => GdalCheckResult { tool: tool.to_string(), ok: false, detail: e.clone() },
    }
}

/// What a check of the tools does next: probe a tool with one argument, or report.
#[derive(Debug, Clone)]
pub enum CheckStep {
    Probe { tool: String, arg: String },
    Done(Vec<GdalCheckResult>),
}

/// The content of a [`CheckStep`].
#[verifier::ext_equal]
pub ghost enum CheckStepView {
    Probe(Seq<char>, Seq<char>),
    Done(Seq<CheckView>),
}

impl View for CheckStep {
    type V = CheckStepView;

    open spec fn view(&self) -> CheckStepView {
        match *self {
            CheckStep::Probe { tool, arg } => CheckStepView::Probe(tool@, arg@),
            CheckStep::Done(v) => CheckStepView::Done(checks(v@)),
        }
    }
}

/// What is reported where neither variant of the tiling tool runs: both errors under both names.
pub open spec fn both_failed(first: CheckView, second: CheckView) -> CheckView {
    CheckView {
        tool: "gdal2tiles|gdal2tiles.py"@,
        ok: false,
        detail: first.detail + "; fallback gdal2tiles.py: "@ + second.detail,
    }
}

/// The order of a check: `gdalinfo`, `gdalwarp` and `gdal_translate`, then the tiling tool. That is
/// the tool of the given name, or `gdal2tiles` with `gdal2tiles.py` in reserve.
pub open spec fn check_step(custom: Option<Seq<char>>, done: Seq<CheckView>) -> CheckStepView {
    if done.len() == 0 {
        CheckStepView::Probe("gdalinfo"@, "--version"@)
    } else if done.len() == 1 {
        CheckStepView::Probe("gdalwarp"@, "--version"@)
    } else if done.len() == 2 {
        CheckStepView::Probe("gdal_translate"@, "--version"@)
    } else if done.len() == 3 {
        match custom {
            Some(cmd) => CheckStepView::Probe(cmd, "--help"@),
            None => CheckStepView::Probe("gdal2tiles"@, "--help"@),
        }
    } else if custom is Some || done[3].ok {
        CheckStepView::Done(done.take(4))
    } else if done.len() == 4 {
        CheckStepView::Probe("gdal2tiles.py"@, "--help"@)
    } else if done[4].ok {
        CheckStepView::Done(done.take(3).push(done[4]))
    } else {
        CheckStepView::Done(done.take(3).push(both_failed(done[3], done[4])))
    }
}

fn copy_check(c: &GdalCheckResult) -> (r: GdalCheckResult)
    ensures
        r@ == c@,
{
    GdalCheckResult { tool: c.tool.clone(), ok: c.ok, detail: c.detail.clone() }
}

fn copy_checks(v: &Vec<GdalCheckResult>, n: usize) -> (r: Vec<GdalCheckResult>)
    requires
        n <= v.len(),
    ensures
        checks(r@) == checks(v@).take(n as int),
{
    let mut out: Vec<GdalCheckResult> = Vec::new();
    let mut i: usize = 0;
    while i < n
        invariant
            i <= n <= v.len(),
            checks(out@) == checks(v@).take(i as int),
        decreases n - i,
    {
        let ghost before = checks(out@);
        let c = copy_check(&v[i]);
        out.push(c);
        i += 1;
        assert(checks(out@) =~= before.push(v@[i - 1]@));
        assert(checks(v@).take(i as int) =~= before.push(v@[i - 1]@));
    }
    out
}

fn probe_step(tool: &str, arg: &str) -> (r: CheckStep)
    ensures
        r@ == CheckStepView::Probe(tool@, arg@),
{
    CheckStep::Probe { tool: tool.to_string(), arg: arg.to_string() }
}

/// The next step of a check of the GDAL tools; `done` holds the results of the probes so far.
pub fn check_gdal_tools(gdal2tiles_cmd: Option<&str>, done: &Vec<GdalCheckResult>) -> (r: CheckStep)
    ensures
        r@ == check_step(
            match gdal2tiles_cmd {
                Some(cmd) => Some(cmd@),
                None => None,
            },
            checks(done@),
        ),
{
    if done.len() == 0 {
        return probe_step("gdalinfo", "--version");
    }
    if done.len() == 1 {
        return probe_step("gdalwarp", "--version");
    }
    if done.len() == 2 {
        return probe_step("gdal_translate", "--version");
    }
    if done.len() == 3 {
        return match gdal2tiles_cmd {
            Some(cmd) => probe_step(cmd, "--help"),
            None => probe_step("gdal2tiles", "--help"),
        };
    }
    if gdal2tiles_cmd.is_some() || done[3].ok {
        return CheckStep::Done(copy_checks(done, 4));
    }
    if done.len() == 4 {
        return probe_step("gdal2tiles.py", "--help");
    }
    let mut results = copy_checks(done, 3);
    let ghost first = checks(results@);
    let last = if done[4].ok {
        copy_check(&done[4])
    } else {
        let mut detail = concat2(done[3].detail.as_str(), "; fallback gdal2tiles.py: ");
        detail.append(done[4].detail.as_str());
        GdalCheckResult { tool: "gdal2tiles|gdal2tiles.py".to_string(), ok: false, detail }
    };
    results.push(last);
    assert(checks(results@) =~= first.push(last@));
    CheckStep::Done(results)
}

/// A check is over after five probes at the latest. It reports on four tools; the first three
/// reports are those of the first three probes, and the last is good exactly where a probe of the
/// tiling tool was.
pub proof fn check_reports_on_four_tools(custom: Option<Seq<char>>, done: Seq<CheckView>)
    ensures
        done.len() >= 5 ==> check_step(custom, done) is Done,
        check_step(custom, done) is Done ==> {
            let results = check_step(custom, done)->Done_0;
            &&& done.len() >= 4
            &&& results.len() == 4
            &&& results.take(3) == done.take(3)
            &&& results[3].ok == (done[3].ok || (custom is None && done.len() >= 5 && done[4].ok))
        },
{
    if check_step(custom, done) is Done {
        let results = check_step(custom, done)->Done_0;
        assert(results.take(3) =~= done.take(3));
    }
}

/// What is told of an image stands in its document under these names: width and height in `size`, one
/// entry for each band in `bands`, and the description of its system in `wkt` of `coordinateSystem`.
pub proof fn size_bands_and_system_are_read(
    path: Seq<char>,
    t: JsonTree,
    width: u64,
    height: u64,
    a: u64,
    b: u64,
    bands: Seq<JsonTree>,
    system: JsonTree,
    wkt: Seq<char>,
)
    ensures
        doc_info(path, t).path == path,
        member(t, "size"@) == Some(
            JsonTree::List(
                seq![JsonTree::Number(Some(width), a), JsonTree::Number(Some(height), b)],
            ),
        ) ==> doc_info(path, t).size == (width, height),
        member(t, "size"@) is None ==> doc_info(path, t).size == (0u64, 0u64),
        member(t, "bands"@) == Some(JsonTree::List(bands)) ==> doc_info(path, t).band_count
            == bands.len(),
        member(t, "bands"@) is None ==> doc_info(path, t).band_count == 0,
        member(t, "coordinateSystem"@) == Some(system) && member(system, "wkt"@) == Some(
            JsonTree::Text(wkt),
        ) ==> doc_info(path, t).coordinate_system == Some(wkt),
        member(t, "coordinateSystem"@) is None ==> doc_info(path, t).coordinate_system is None,
{
}

/// The corners of an image stand in `cornerCoordinates`, each under its own name, with the horizontal
/// coordinate first. A corner with fewer than two numbers is missing.
pub proof fn corners_are_read(
    path: Seq<char>,
    t: JsonTree,
    corners: JsonTree,
    list: Seq<JsonTree>,
    x: u64,
    y: u64,
    m: Option<u64>,
    n: Option<u64>,
)
    requires
        member(t, "cornerCoordinates"@) == Some(corners),
    ensures
        list.len() >= 2 && list[0] == JsonTree::Number(m, x) && list[1] == JsonTree::Number(n, y)
            ==> {
            &&& member(corners, "upperLeft"@) == Some(JsonTree::List(list)) ==> doc_info(
                path,
                t,
            ).upper_left == Some((x, y))
            &&& member(corners, "lowerRight"@) == Some(JsonTree::List(list)) ==> doc_info(
                path,
                t,
            ).lower_right == Some((x, y))
        },
        list.len() < 2 ==> {
            &&& member(corners, "upperLeft"@) == Some(JsonTree::List(list)) ==> doc_info(
                path,
                t,
            ).upper_left is None
            &&& member(corners, "lowerRight"@) == Some(JsonTree::List(list)) ==> doc_info(
                path,
                t,
            ).lower_right is None
        },
        member(corners, "upperLeft"@) is None ==> doc_info(path, t).upper_left is None,
        member(corners, "lowerRight"@) is None ==> doc_info(path, t).lower_right is None,
{
}

/// The size of a pixel is the second and the sixth number of `geoTransform`, where it has both.
pub proof fn pixel_size_is_read(
    path: Seq<char>,
    t: JsonTree,
    list: Seq<JsonTree>,
    x: u64,
    y: u64,
    m: Option<u64>,
    n: Option<u64>,
)
    requires
        member(t, "geoTransform"@) == Some(JsonTree::List(list)),
    ensures
        list.len() >= 6 && list[1] == JsonTree::Number(m, x) && list[5] == JsonTree::Number(n, y)
            ==> doc_info(path, t).pixel_size == Some((x, y)),
        list.len() < 6 ==> doc_info(path, t).pixel_size is None,
{
}

/// What a run of `gdalinfo` ends with: the error of starting it, what it has put out as an error, the
/// error of reading its document, or what the document tells of the image.
pub proof fn inspection_ends_with_what_was_put_out(
    path: Seq<char>,
    output: ProcessOutput,
    failure: String,
)
    ensures
        inspected(path, Err(failure)) == Err::<TifView, Seq<char>>("执行 gdalinfo 失败: "@ + failure@),
        !output.success ==> inspected(path, Ok(output)) == Err::<TifView, Seq<char>>(
            "gdalinfo 执行失败: "@ + lossy_text(output.stderr@),
        ),
        output.success ==> match json_document(output.stdout@) {
            Ok(t) => inspected(path, Ok(output)) == Ok::<TifView, Seq<char>>(doc_info(path, t)),
            Err(e) => inspected(path, Ok(output)) == Err::<TifView, Seq<char>>(
                "解析 gdalinfo JSON 失败: "@ + e,
            ),
        },
{
}

/// An image is looked for first, and read with `gdalinfo` as a document only where it is there.
pub proof fn images_are_looked_for_and_read(
    path: Seq<char>,
    outcome: Result<ProcessOutput, String>,
    known: Option<Result<ProcessOutput, String>>,
)
    ensures
        inspect_course(path, None, known) == InspectStepView::CheckInput(path),
        inspect_course(path, Some(false), known) == InspectStepView::Done(
            Err("输入文件不存在: "@ + path),
        ),
        inspect_course(path, Some(true), None) matches InspectStepView::Run(args) && args.len() == 2
            && args[0] == "-json"@ && args[1] == path,
        inspect_course(path, Some(true), Some(outcome)) == InspectStepView::Done(
            inspected(path, outcome),
        ),
{
}

/// A probe is good exactly where its tool succeeded. It shows what the tool put out, or what it put
/// out as an error, or why it could not be started.
pub proof fn probes_show_what_the_tool_said(
    tool: Seq<char>,
    output: ProcessOutput,
    failure: String,
)
    ensures
        probed(tool, Ok(output)).ok == output.success,
        output.success ==> probed(tool, Ok(output)).detail == trimmed(lossy_text(output.stdout@)),
        !output.success ==> probed(tool, Ok(output)).detail == trimmed(lossy_text(output.stderr@)),
        !probed(tool, Err(failure)).ok,
        probed(tool, Err(failure)).detail == failure@,
        probed(tool, Ok(output)).tool == tool,
        probed(tool, Err(failure)).tool == tool,
{
}

/// The tools are checked in this order: `gdalinfo`, `gdalwarp` and `gdal_translate` for their versions,
/// then the tiling tool for its help, which is that of the given name or `gdal2tiles`; the script is
/// tried only where `gdal2tiles` was and failed.
pub proof fn tools_are_checked_in_order(custom: Option<Seq<char>>, done: Seq<CheckView>)
    ensures
        done.len() == 0 ==> check_step(custom, done) == CheckStepView::Probe(
            "gdalinfo"@,
            "--version"@,
        ),
        done.len() == 1 ==> check_step(custom, done) == CheckStepView::Probe(
            "gdalwarp"@,
            "--version"@,
        ),
        done.len() == 2 ==> check_step(custom, done) == CheckStepView::Probe(
            "gdal_translate"@,
            "--version"@,
        ),
        done.len() == 3 ==> (custom matches Some(cmd) ==> check_step(custom, done)
            == CheckStepView::Probe(cmd, "--help"@)),
        done.len() == 3 && custom is None ==> check_step(custom, done) == CheckStepView::Probe(
            "gdal2tiles"@,
            "--help"@,
        ),
        done.len() == 4 && custom is None && !done[3].ok ==> check_step(custom, done)
            == CheckStepView::Probe("gdal2tiles.py"@, "--help"@),
        done.len() == 4 && (custom is Some || done[3].ok) ==> check_step(custom, done)
            == CheckStepView::Done(done),
        done.len() == 5 && custom is None && !done[3].ok && done[4].ok ==> (check_step(
            custom,
            done,
        ) matches CheckStepView::Done(all) && all[3] == done[4]),
        done.len() == 5 && custom is None && !done[3].ok && !done[4].ok ==> (check_step(
            custom,
            done,
        ) matches CheckStepView::Done(all) && all[3].tool == "gdal2tiles|gdal2tiles.py"@
            && !all[3].ok && all[3].detail == done[3].detail + "; fallback gdal2tiles.py: "@
            + done[4].detail),
{
    assert(done.len() == 4 ==> done.take(4) =~= done);
}

/// A width or height that is missing or no unsigned integer is 0, each for itself; a size and bands
/// that are no lists, and a description that is no text, are as good as none.
pub proof fn odd_documents_tell_less(path: Seq<char>, t: JsonTree, list: Seq<JsonTree>, odd: JsonTree)
    ensures
        member(t, "size"@) == Some(JsonTree::List(list)) ==> doc_info(path, t).size.0 == (if list.len()
            > 0 {
            match list[0] {
                JsonTree::Number(Some(n), _) => n,
                _ => 0u64,
            }
        } else {
            0u64
        }) && doc_info(path, t).size.1 == (if list.len() > 1 {
            match list[1] {
                JsonTree::Number(Some(n), _) => n,
                _ => 0u64,
            }
        } else {
            0u64
        }),
        !(odd is List) && member(t, "size"@) == Some(odd) ==> doc_info(path, t).size == (0u64, 0u64),
        !(odd is List) && member(t, "bands"@) == Some(odd) ==> doc_info(path, t).band_count == 0,
        !(odd is List) && member(t, "geoTransform"@) == Some(odd) ==> doc_info(
            path,
            t,
        ).pixel_size is None,
        !(odd is Object) ==> doc_info(path, odd).coordinate_system is None && doc_info(
            path,
            odd,
        ).upper_left is None && doc_info(path, odd).size == (0u64, 0u64),
        !(odd is Object) && member(t, "coordinateSystem"@) == Some(odd) ==> doc_info(
            path,
            t,
        ).coordinate_system is None,
        !(odd is Number) && list.len() >= 6 && (list[1] == odd || list[5] == odd) && member(
            t,
            "geoTransform"@,
        ) == Some(JsonTree::List(list)) ==> doc_info(path, t).pixel_size is None,
{
}

/// A corner with a coordinate that is no number is missing, whichever of the two it is.
pub proof fn corners_need_two_numbers(
    path: Seq<char>,
    t: JsonTree,
    corners: JsonTree,
    list: Seq<JsonTree>,
    odd: JsonTree,
)
    requires
        member(t, "cornerCoordinates"@) == Some(corners),
        list.len() >= 2,
        !(odd is Number),
        list[0] == odd || list[1] == odd,
    ensures
        member(corners, "upperLeft"@) == Some(JsonTree::List(list)) ==> doc_info(
            path,
            t,
        ).upper_left is None,
        member(corners, "lowerRight"@) == Some(JsonTree::List(list)) ==> doc_info(
            path,
            t,
        ).lower_right is None,
{
}

} // verus!
