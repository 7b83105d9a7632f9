//! The corners of an image in another coordinate system, shown before a job is started.

use crate::text::concat2;
use crate::text::from_utf8_lossy;
use crate::text::lossy_text;
use crate::text::opt_text;
use crate::text::push_text;
use crate::text::same_text;
use crate::text::texts;
use crate::tif_inspector::opt_pair;
use crate::tif_inspector::pair;
use crate::tif_inspector::ProcessOutput;
use crate::tif_inspector::TifInfo;
use vstd::prelude::*;

verus! {

/// The corners of an image in a coordinate system. Coordinates are doubles, held as their bits.
#[derive(Debug, Clone)]
pub struct BoundsPreview {
    pub target_crs: String,
    pub upper_left: [u64; 2],
    pub lower_right: [u64; 2],
    pub source_srs: String,
    pub note: Option<String>,
}

/// The content of a [`BoundsPreview`].
pub ghost struct PreviewView {
    pub target_crs: Seq<char>,
    pub upper_left: (u64, u64),
    pub lower_right: (u64, u64),
    pub source_srs: Seq<char>,
    pub note: Option<Seq<char>>,
}

impl View for BoundsPreview {
    type V = PreviewView;

    open spec fn view(&self) -> PreviewView {
        PreviewView {
            target_crs: self.target_crs@,
            upper_left: pair(self.upper_left),
            lower_right: pair(self.lower_right),
            source_srs: self.source_srs@,
            note: opt_text(self.note),
        }
    }
}

/// The corners of an image, shifted into GCJ-02.
#[derive(Debug, Clone, Copy)]
pub struct ShiftedCorners {
    pub upper_left: [u64; 2],
    pub lower_right: [u64; 2],
}

/// What is known for a preview so far: whether the image exists, the path of the file between the
/// tools, what came of the warp, what the warped image is, and its corners in GCJ-02.
#[derive(Debug)]
pub struct PreviewFacts {
    pub input_exists: Option<bool>,
    pub temp_path: Option<String>,
    pub warped: Option<Result<ProcessOutput, String>>,
    pub inspected: Option<Result<TifInfo, String>>,
    pub shifted: Option<ShiftedCorners>,
}

/// What is to be done next for a preview.
#[derive(Debug)]
pub enum PreviewStep {
    /// See whether this image exists.
    CheckInput(String),
    /// Find a path for the file between the tools.
    NameTemp,
    /// Run `gdalwarp` with these arguments.
    Warp(Vec<String>),
    /// Inspect this image, then remove it.
    Inspect(String),
    /// Shift these corners into GCJ-02.
    Shift { upper_left: [u64; 2], lower_right: [u64; 2] },
    Done(Result<BoundsPreview, String>),
}

/// The content of a [`PreviewStep`].
pub ghost enum PreviewStepView {
    CheckInput(Seq<char>),
    NameTemp,
    Warp(Seq<Seq<char>>),
    Inspect(Seq<char>),
    Shift((u64, u64), (u64, u64)),
    Done(Result<PreviewView, Seq<char>>),
}

impl View for PreviewStep {
    type V = PreviewStepView;

    open spec fn view(&self) -> PreviewStepView {
        match *self {
            PreviewStep::CheckInput(path) => PreviewStepView::CheckInput(path@),
            PreviewStep::NameTemp => PreviewStepView::NameTemp,
            PreviewStep::Warp(args) => PreviewStepView::Warp(texts(args@)),
            PreviewStep::Inspect(path) => PreviewStepView::Inspect(path@),
            PreviewStep::Shift { upper_left, lower_right } => PreviewStepView::Shift(
                pair(upper_left),
                pair(lower_right),
            ),
            PreviewStep::Done(Ok(p)) => PreviewStepView::Done(Ok(p@)),
            PreviewStep::Done(Err(e)) => PreviewStepView::Done(Err(e@)),
        }
    }
}

/// The system that an image is warped into for a target: GCJ-02 is reached from the geographic one.
pub open spec fn target_srs(crs: Seq<char>) -> Option<Seq<char>> {
    if crs == "wgs84"@ || crs == "gcj02"@ {
        Some("EPSG:4326"@)
    } else if crs == "webmercator"@ {
        Some("EPSG:3857"@)
    } else {
        None
    }
}

/// The arguments of the warp for a preview. It writes no pixels, so that the disk space need not be
/// checked.
pub open spec fn preview_args(srs: Seq<char>, path: Seq<char>, temp: Seq<char>) -> Seq<Seq<char>> {
    seq![
        "-of"@,
        "VRT"@,
        "--config"@,
        "CHECK_DISK_FREE_SPACE"@,
        "FALSE"@,
        "-t_srs"@,
        srs,
        path,
        temp,
    ]
}

/// The preview for known corners in the system of the warp, and in GCJ-02 where they were shifted.
pub open spec fn corners_step(
    crs: Seq<char>,
    srs: Seq<char>,
    upper_left: (u64, u64),
    lower_right: (u64, u64),
    shifted: Option<ShiftedCorners>,
) -> PreviewStepView {
    if crs == "gcj02"@ {
        match shifted {
            None => PreviewStepView::Shift(upper_left, lower_right),
            Some(corners) => PreviewStepView::Done(
                Ok(
                    PreviewView {
                        target_crs: crs,
                        upper_left: pair(corners.upper_left),
                        lower_right: pair(corners.lower_right),
                        source_srs: "GCJ-02"@,
                        note: Some("GCJ-02 坐标由 WGS84 边界经偏移模型换算得到"@),
                    },
                ),
            ),
        }
    } else {
        PreviewStepView::Done(
            Ok(
                PreviewView {
                    target_crs: crs,
                    upper_left,
                    lower_right,
                    source_srs: srs,
                    note: None,
                },
            ),
        )
    }
}

/// The course of a preview for a known system: a path is found, the image is warped and the result
/// is inspected. The first thing that fails ends it.
pub open spec fn warped_step(
    path: Seq<char>,
    crs: Seq<char>,
    srs: Seq<char>,
    facts: PreviewFacts,
) -> PreviewStepView {
    match facts.temp_path {
        None => PreviewStepView::NameTemp,
        Some(temp) => match facts.warped {
            None => PreviewStepView::Warp(preview_args(srs, path, temp@)),
            Some(Err(e)) => PreviewStepView::Done(Err("执行 gdalwarp 失败: "@ + e@)),
            Some(Ok(output)) => if !output.success {
                PreviewStepView::Done(Err("gdalwarp 执行失败: "@ + lossy_text(output.stderr@)))
            } else {
                match facts.inspected {
                    None => PreviewStepView::Inspect(temp@),
                    Some(Err(e)) => PreviewStepView::Done(Err(e@)),
                    Some(Ok(info)) => match (opt_pair(info.upper_left), opt_pair(info.lower_right)) {
                        (None, _) => PreviewStepView::Done(Err("未能读取左上坐标"@)),
                        (_, None) => PreviewStepView::Done(Err("未能读取右下坐标"@)),
                        (Some(ul), Some(lr)) => corners_step(crs, srs, ul, lr, facts.shifted),
                    },
                }
            },
        },
    }
}

/// The course of a preview.
pub open spec fn preview_step(path: Seq<char>, crs: Seq<char>, facts: PreviewFacts) -> PreviewStepView {
    match facts.input_exists {
        None => PreviewStepView::CheckInput(path),
        Some(exists) => if !exists {
            PreviewStepView::Done(Err("输入文件不存在: "@ + path))
        } else {
            match target_srs(crs) {
                None => PreviewStepView::Done(Err("不支持的目标坐标系: "@ + crs)),
                Some(srs) => warped_step(path, crs, srs, facts),
            }
        },
    }
}

fn build_preview_args(srs: &str, path: &str, temp: &str) -> (r: Vec<String>)
    ensures
        texts(r@) == preview_args(srs@, path@, temp@),
{
    let mut args: Vec<String> = Vec::new();
    push_text(&mut args, "-of");
    push_text(&mut args, "VRT");
    push_text(&mut args, "--config");
    push_text(&mut args, "CHECK_DISK_FREE_SPACE");
    push_text(&mut args, "FALSE");
    push_text(&mut args, "-t_srs");
    push_text(&mut args, srs);
    push_text(&mut args, path);
    push_text(&mut args, temp);
    assert(texts(args@) =~= preview_args(srs@, path@, temp@));
    args
}

fn done_with(message: String) -> (r: PreviewStep)
    ensures
        r@ == PreviewStepView::Done(Err(message@)),
{
    PreviewStep::Done(Err(message))
}

fn next_corners(
    crs: &str,
    srs: &str,
    upper_left: [u64; 2],
    lower_right: [u64; 2],
    shifted: &Option<ShiftedCorners>,
) -> (r: PreviewStep)
    ensures
        r@ == corners_step(crs@, srs@, pair(upper_left), pair(lower_right), *shifted),
{
    if !same_text(crs, "gcj02") {
        return PreviewStep::Done(
            Ok(
                BoundsPreview {
                    target_crs: crs.to_string(),
                    upper_left,
                    lower_right,
                    source_srs: srs.to_string(),
                    note: None,
                },
            ),
        );
    }
    match shifted {
        None => PreviewStep::Shift { upper_left, lower_right },
        Some(corners) => PreviewStep::Done(
            Ok(
                BoundsPreview {
                    target_crs: crs.to_string(),
                    upper_left: corners.upper_left,
                    lower_right: corners.lower_right,
                    source_srs: "GCJ-02".to_string(),
                    note: Some("GCJ-02 坐标由 WGS84 边界经偏移模型换算得到".to_string()),
                },
            ),
        ),
    }
}

/// What is to be done next for a preview of an image in a coordinate system.
pub fn preview_bounds_by_crs(path: &str, target_crs: &str, facts: &PreviewFacts) -> (r: PreviewStep)
    ensures
        r@ == preview_step(path@, target_crs@, *facts),
{
    match &facts.input_exists {
        None => {
            return PreviewStep::CheckInput(path.to_string());
        },
        Some(exists) => {
            if !*exists {
                return done_with(concat2("输入文件不存在: ", path));
            }
        },
    }
    let srs = if same_text(target_crs, "wgs84") || same_text(target_crs, "gcj02") {
        "EPSG:4326"
    } else if same_text(target_crs, "webmercator") {
        "EPSG:3857"
    } else {
        return done_with(concat2("不支持的目标坐标系: ", target_crs));
    };
    let temp = match &facts.temp_path {
        None => {
            return PreviewStep::NameTemp;
        },
        Some(temp) => temp.as_str(),
    };
    match &facts.warped {
        None => PreviewStep::Warp(build_preview_args(srs, path, temp)),
        Some(Err(e)) => done_with(concat2("执行 gdalwarp 失败: ", e.as_str())),
        Some(Ok(output)) => {
            if !output.success {
                let stderr = from_utf8_lossy(&output.stderr);
                return done_with(concat2("gdalwarp 执行失败: ", stderr.as_str()));
            }
            match &facts.inspected {
                None => PreviewStep::Inspect(temp.to_string()),
                Some(Err(e)) => done_with(e.clone()),
                Some(Ok(info)) => match &info.upper_left {
                    None => done_with("未能读取左上坐标".to_string()),
                    Some(ul) => match &info.lower_right {
                        None => done_with("未能读取右下坐标".to_string()),
                        Some(lr) => next_corners(target_crs, srs, *ul, *lr, &facts.shifted),
                    },
                },
            }
        },
    }
}

/// A preview shows the corners that were read off the warped image, or, for GCJ-02 and for no other
/// target, the shifted ones, and then says so in a note.
pub proof fn only_gcj_is_shifted(
    path: Seq<char>,
    crs: Seq<char>,
    facts: PreviewFacts,
    shown: PreviewView,
)
    requires
        preview_step(path, crs, facts) == PreviewStepView::Done(Ok(shown)),
    ensures
        shown.target_crs == crs,
        shown.note is Some <==> crs == "gcj02"@,
        crs == "gcj02"@ ==> (facts.shifted matches Some(corners) && shown.upper_left == pair(
            corners.upper_left,
        ) && shown.lower_right == pair(corners.lower_right)),
        crs != "gcj02"@ ==> (facts.inspected matches Some(Ok(info)) && opt_pair(info.upper_left)
            == Some(shown.upper_left) && opt_pair(info.lower_right) == Some(shown.lower_right)
            && target_srs(crs) == Some(shown.source_srs)),
{
}

/// How many things are still to be found out for a preview.
pub open spec fn facts_missing(f: PreviewFacts) -> int {
    (if f.input_exists is None {
        1int
    } else {
        0
    }) + (if f.temp_path is None {
        1int
    } else {
        0
    }) + (if f.warped is None {
        1int
    } else {
        0
    }) + (if f.inspected is None {
        1int
    } else {
        0
    }) + (if f.shifted is None {
        1int
    } else {
        0
    })
}

/// A preview is done after five steps at most: each step finds out one thing that was not known.
pub proof fn preview_is_done_in_five_steps(
    path: Seq<char>,
    crs: Seq<char>,
    f: PreviewFacts,
    g: PreviewFacts,
)
    requires
        match preview_step(path, crs, f) {
            PreviewStepView::CheckInput(_) => g.input_exists is Some && g == (PreviewFacts {
                input_exists: g.input_exists,
                ..f
            }),
            PreviewStepView::NameTemp => g.temp_path is Some && g == (PreviewFacts {
                temp_path: g.temp_path,
                ..f
            }),
            PreviewStepView::Warp(_) => g.warped is Some && g == (PreviewFacts {
                warped: g.warped,
                ..f
            }),
            PreviewStepView::Inspect(_) => g.inspected is Some && g == (PreviewFacts {
                inspected: g.inspected,
                ..f
            }),
            PreviewStepView::Shift(_, _) => g.shifted is Some && g == (PreviewFacts {
                shifted: g.shifted,
                ..f
            }),
            PreviewStepView::Done(_) => false,
        },
    ensures
        0 <= facts_missing(g) < facts_missing(f) <= 5,
{
}

proof fn lemma_targets_differ()
    ensures
        "gcj02"@ != "wgs84"@,
        "gcj02"@ != "webmercator"@,
        "wgs84"@ != "webmercator"@,
{
    reveal_strlit("gcj02");
    reveal_strlit("wgs84");
    reveal_strlit("webmercator");
    assert("gcj02"@[0] != "wgs84"@[0]);
    assert("gcj02"@.len() != "webmercator"@.len());
    assert("wgs84"@.len() != "webmercator"@.len());
}

/// The warp of a preview goes into degrees for WGS 84, and for GCJ-02, whose shift starts from
/// degrees; it goes into the metres of web maps for web maps. It reads the image and writes the
/// file between the tools, without pixels and without a check of the disk space.
pub proof fn preview_warps_into_the_system_of_the_target(
    path: Seq<char>,
    crs: Seq<char>,
    facts: PreviewFacts,
)
    ensures
        preview_step(path, crs, facts) matches PreviewStepView::Warp(args) ==> {
            &&& facts.input_exists == Some(true)
            &&& crs == "wgs84"@ || crs == "gcj02"@ || crs == "webmercator"@
            &&& args.len() == 9
            &&& args[0] == "-of"@ && args[1] == "VRT"@
            &&& args[2] == "--config"@ && args[3] == "CHECK_DISK_FREE_SPACE"@ && args[4]
                == "FALSE"@
            &&& args[5] == "-t_srs"@
            &&& crs == "wgs84"@ ==> args[6] == "EPSG:4326"@
            &&& crs == "gcj02"@ ==> args[6] == "EPSG:4326"@
            &&& crs == "webmercator"@ ==> args[6] == "EPSG:3857"@
            &&& args[7] == path
            &&& facts.temp_path matches Some(temp) && args[8] == temp@
        },
{
    lemma_targets_differ();
}

/// A preview names the system of what it shows: that of the warp, or GCJ-02 with a note where the
/// corners were shifted. What is shifted are the corners that were read off the warped image.
pub proof fn preview_names_the_system_that_it_shows(
    path: Seq<char>,
    crs: Seq<char>,
    facts: PreviewFacts,
)
    ensures
        preview_step(path, crs, facts) matches PreviewStepView::Done(Ok(shown)) ==> {
            &&& shown.target_crs == crs
            &&& crs == "wgs84"@ ==> shown.source_srs == "EPSG:4326"@ && shown.note is None
            &&& crs == "webmercator"@ ==> shown.source_srs == "EPSG:3857"@ && shown.note is None
            &&& crs == "gcj02"@ ==> shown.source_srs == "GCJ-02"@ && shown.note == Some(
                "GCJ-02 坐标由 WGS84 边界经偏移模型换算得到"@,
            )
            &&& crs == "wgs84"@ || crs == "webmercator"@ || crs == "gcj02"@
            &&& facts.input_exists == Some(true)
            &&& facts.warped matches Some(Ok(output)) && output.success
        },
        preview_step(path, crs, facts) matches PreviewStepView::Shift(ul, lr) ==> crs == "gcj02"@
            && (facts.inspected matches Some(Ok(info)) && opt_pair(info.upper_left) == Some(ul)
            && opt_pair(info.lower_right) == Some(lr)) && facts.shifted is None,
        preview_step(path, crs, facts) matches PreviewStepView::Inspect(file) ==> (
        facts.temp_path matches Some(temp) && file == temp@) && (facts.warped matches Some(
            Ok(output),
        ) && output.success),
{
    lemma_targets_differ();
}

/// A preview ends with the first thing that fails: an image that is missing, a target that is not
/// known, a warp that could not be started or failed, an image that could not be read, and a corner
/// that is missing, the upper left one first.
pub proof fn preview_ends_with_what_fails_first(
    path: Seq<char>,
    crs: Seq<char>,
    facts: PreviewFacts,
)
    ensures
        facts.input_exists is None ==> preview_step(path, crs, facts)
            == PreviewStepView::CheckInput(path),
        facts.input_exists == Some(false) ==> preview_step(path, crs, facts)
            == PreviewStepView::Done(Err("输入文件不存在: "@ + path)),
        facts.input_exists == Some(true) && crs != "wgs84"@ && crs != "webmercator"@ && crs
            != "gcj02"@ ==> preview_step(path, crs, facts) == PreviewStepView::Done(
            Err("不支持的目标坐标系: "@ + crs),
        ),
        facts.input_exists == Some(true) && (crs == "wgs84"@ || crs == "webmercator"@ || crs
            == "gcj02"@) ==> {
            &&& facts.temp_path is None ==> preview_step(path, crs, facts)
                == PreviewStepView::NameTemp
            &&& facts.temp_path is Some ==> match facts.warped {
                None => preview_step(path, crs, facts) is Warp,
                Some(Err(e)) => preview_step(path, crs, facts) == PreviewStepView::Done(
                    Err("执行 gdalwarp 失败: "@ + e@),
                ),
                Some(Ok(output)) => {
                    &&& !output.success ==> preview_step(path, crs, facts)
                        == PreviewStepView::Done(
                        Err("gdalwarp 执行失败: "@ + lossy_text(output.stderr@)),
                    )
                    &&& output.success ==> match facts.inspected {
                        None => preview_step(path, crs, facts) is Inspect,
                        Some(Err(e)) => preview_step(path, crs, facts) == PreviewStepView::Done(
                            Err(e@),
                        ),
                        Some(Ok(info)) => {
                            &&& info.upper_left is None ==> preview_step(path, crs, facts)
                                == PreviewStepView::Done(Err("未能读取左上坐标"@))
                            &&& info.upper_left is Some && info.lower_right is None
                                ==> preview_step(path, crs, facts) == PreviewStepView::Done(
                                Err("未能读取右下坐标"@),
                            )
                            &&& info.upper_left is Some && info.lower_right is Some
                                ==> preview_step(path, crs, facts) is Shift || preview_step(
                                path,
                                crs,
                                facts,
                            ) matches PreviewStepView::Done(Ok(_))
                        },
                    }
                },
            }
        },
{
    lemma_targets_differ();
}

/// What is done for a preview, as a whole: the image is warped into degrees for WGS 84 and GCJ-02 and
/// into the metres of web maps for web maps, whatever else is known.
pub proof fn previews_fit_their_targets(
    path: &str,
    target_crs: &str,
    facts: PreviewFacts,
    r: PreviewStep,
)
    requires
        call_ensures(preview_bounds_by_crs, (path, target_crs, &facts), r),
    ensures
        r matches PreviewStep::Warp(args) ==> {
            let t = texts(args@);
            &&& t.len() == 9
            &&& t[5] == "-t_srs"@
            &&& target_crs@ == "wgs84"@ || target_crs@ == "gcj02"@ ==> t[6] == "EPSG:4326"@
            &&& target_crs@ == "webmercator"@ ==> t[6] == "EPSG:3857"@
            &&& t[7] == path@
        },
        r matches PreviewStep::Done(Ok(shown)) ==> shown.target_crs@ == target_crs@,
{
    lemma_targets_differ();
}

} // verus!
