use tif2tiles::json::double_bits_at;
use tif2tiles::tif_inspector::check_gdal_tools;
use tif2tiles::tif_inspector::check_input;
use tif2tiles::tif_inspector::inspect_args;
use tif2tiles::tif_inspector::inspect_step;
use tif2tiles::tif_inspector::inspect_tif;
use tif2tiles::tif_inspector::parse_coordinate_system;
use tif2tiles::tif_inspector::parse_corner;
use tif2tiles::tif_inspector::parse_pixel_size;
use tif2tiles::tif_inspector::parse_size;
use tif2tiles::tif_inspector::probe_report;
use tif2tiles::tif_inspector::run_probe;
use tif2tiles::tif_inspector::CheckStep;
use tif2tiles::tif_inspector::GdalCheckResult;
use tif2tiles::tif_inspector::InspectStep;
use tif2tiles::tif_inspector::ProcessOutput;
use tif2tiles::tif_inspector::TifInfo;

fn output(success: bool, stdout: &str, stderr: &str) -> Result<ProcessOutput, String> {
    Ok(ProcessOutput {
        success,
        stdout: stdout.as_bytes().to_vec(),
        stderr: stderr.as_bytes().to_vec(),
    })
}

const DOCUMENT: &str = r#"{
  "size": [1024, 768],
  "bands": [{}, {}, {}],
  "coordinateSystem": {"wkt": "GEOGCRS[\"WGS 84\"]"},
  "cornerCoordinates": {"upperLeft": [120.0, 30.5], "lowerRight": [121, -2.25]},
  "geoTransform": [1, 0.5, 0, 2, 0, -0.5]
}"#;

fn bits(x: f64, y: f64) -> Option<[u64; 2]> {
    Some([x.to_bits(), y.to_bits()])
}

#[test]
fn a_full_document_is_read() {
    let info: TifInfo = inspect_tif("/a.tif", &output(true, DOCUMENT, "")).unwrap();
    assert_eq!(info.path, "/a.tif");
    assert_eq!(info.size, [1024, 768]);
    assert_eq!(info.band_count, 3);
    assert_eq!(info.coordinate_system, Some("GEOGCRS[\"WGS 84\"]".to_string()));
    assert_eq!(info.upper_left, bits(120.0, 30.5));
    assert_eq!(info.lower_right, bits(121.0, -2.25));
    assert_eq!(info.pixel_size, bits(0.5, -0.5));
}

#[test]
fn missing_parts_are_left_out() {
    let info = inspect_tif("a", &output(true, "{}", "")).unwrap();
    assert_eq!(info.size, [0, 0]);
    assert_eq!(info.band_count, 0);
    assert_eq!(info.coordinate_system, None);
    assert_eq!(info.upper_left, None);
    assert_eq!(info.lower_right, None);
    assert_eq!(info.pixel_size, None);
    let odd = r#"{"size":[-1,"x"],"bands":3,"coordinateSystem":{"wkt":7},
        "cornerCoordinates":{"upperLeft":[1],"lowerRight":["a",2]},"geoTransform":[1,2,3,4,5]}"#;
    let info = inspect_tif("a", &output(true, odd, "")).unwrap();
    assert_eq!(info.size, [0, 0]);
    assert_eq!(info.band_count, 0);
    assert_eq!(info.coordinate_system, None);
    assert_eq!(info.upper_left, None);
    assert_eq!(info.lower_right, None);
    assert_eq!(info.pixel_size, None);
    let half = inspect_tif("a", &output(true, r#"{"size":[7]}"#, "")).unwrap();
    assert_eq!(half.size, [7, 0]);
}

#[test]
fn parts_of_a_document_are_read_one_by_one() {
    let value: serde_json::Value = serde_json::from_str(DOCUMENT).unwrap();
    assert_eq!(parse_size(&value), [1024, 768]);
    assert_eq!(parse_corner(&value, "upperLeft"), bits(120.0, 30.5));
    assert_eq!(parse_corner(&value, "center"), None);
    assert_eq!(parse_pixel_size(&value), bits(0.5, -0.5));
    assert_eq!(parse_coordinate_system(&value), Some("GEOGCRS[\"WGS 84\"]".to_string()));
    let list: Vec<serde_json::Value> = serde_json::from_str("[18446744073709551615, -3]").unwrap();
    assert_eq!(double_bits_at(&list, 0), Some(18446744073709551615u64 as f64).map(f64::to_bits));
    assert_eq!(double_bits_at(&list, 1), Some((-3.0f64).to_bits()));
    assert_eq!(double_bits_at(&list, 2), None);
}

#[test]
fn failures_of_the_inspection_are_told_apart() {
    let not_started = Err("no such file".to_string());
    assert_eq!(
        inspect_tif("a", &not_started).unwrap_err(),
        "执行 gdalinfo 失败: no such file"
    );
    assert_eq!(
        inspect_tif("a", &output(false, DOCUMENT, "bad 图")).unwrap_err(),
        "gdalinfo 执行失败: bad 图"
    );
    let message = inspect_tif("a", &output(true, "{", "")).unwrap_err();
    assert!(message.starts_with("解析 gdalinfo JSON 失败: EOF while parsing"), "{}", message);
}

#[test]
fn broken_text_is_shown_with_replacements() {
    let broken = Ok(ProcessOutput { success: false, stdout: vec![], stderr: vec![b'a', 0xff, b'b'] });
    assert_eq!(inspect_tif("a", &broken).unwrap_err(), "gdalinfo 执行失败: a\u{fffd}b");
}

#[test]
fn input_files_must_exist() {
    assert_eq!(check_input("/a.tif", true), Ok(()));
    assert_eq!(check_input("/a.tif", false), Err("输入文件不存在: /a.tif".to_string()));
    assert_eq!(inspect_args("/a.tif"), vec!["-json", "/a.tif"]);
}

#[test]
fn probes_show_what_the_tool_said() {
    let r = run_probe("gdalinfo", &output(true, " GDAL 3.8 \n", "x"));
    assert!(r.ok);
    assert_eq!(r.tool, "gdalinfo");
    assert_eq!(r.detail, "GDAL 3.8");
    let r = run_probe("gdalinfo", &output(false, "x", " missing \n"));
    assert!(!r.ok);
    assert_eq!(r.detail, "missing");
    let r = run_probe("gdalinfo", &Err(" not found ".to_string()));
    assert!(!r.ok);
    assert_eq!(r.detail, " not found ");
    assert_eq!(probe_report("t", true, " a ").detail, "a");
}

fn check(tool: &str, ok: bool, detail: &str) -> GdalCheckResult {
    GdalCheckResult { tool: tool.to_string(), ok, detail: detail.to_string() }
}

fn probe_of(step: CheckStep) -> (String, String) {
    match step {
        CheckStep::Probe { tool, arg } => (tool, arg),
        CheckStep::Done(_) => panic!("nothing to probe"),
    }
}

fn results_of(step: CheckStep) -> Vec<GdalCheckResult> {
    match step {
        CheckStep::Done(results) => results,
        CheckStep::Probe { .. } => panic!("not done"),
    }
}

#[test]
fn tools_are_probed_in_order() {
    let mut done = vec![];
    let mut seen = vec![];
    for i in 0..4 {
        let (tool, arg) = probe_of(check_gdal_tools(None, &done));
        seen.push(format!("{} {}", tool, arg));
        done.push(check(&tool, true, &i.to_string()));
    }
    assert_eq!(
        seen,
        vec![
            "gdalinfo --version",
            "gdalwarp --version",
            "gdal_translate --version",
            "gdal2tiles --help"
        ]
    );
    let results = results_of(check_gdal_tools(None, &done));
    assert_eq!(results.len(), 4);
    assert_eq!(results[3].tool, "gdal2tiles");
}

#[test]
fn the_script_is_tried_after_the_program() {
    let mut done = vec![
        check("gdalinfo", true, ""),
        check("gdalwarp", false, "w"),
        check("gdal_translate", true, ""),
        check("gdal2tiles", false, "first"),
    ];
    assert_eq!(
        probe_of(check_gdal_tools(None, &done)),
        ("gdal2tiles.py".to_string(), "--help".to_string())
    );
    done.push(check("gdal2tiles.py", true, "second"));
    let results = results_of(check_gdal_tools(None, &done));
    assert_eq!(results.len(), 4);
    assert_eq!(results[1].detail, "w");
    assert_eq!(results[3].tool, "gdal2tiles.py");
    assert!(results[3].ok);
    done[4].ok = false;
    let results = results_of(check_gdal_tools(None, &done));
    assert_eq!(results[3].tool, "gdal2tiles|gdal2tiles.py");
    assert!(!results[3].ok);
    assert_eq!(results[3].detail, "first; fallback gdal2tiles.py: second");
}

#[test]
fn a_given_tiling_tool_has_no_reserve() {
    let mut done = vec![check("a", true, ""), check("b", true, ""), check("c", true, "")];
    assert_eq!(
        probe_of(check_gdal_tools(Some("my_tiler"), &done)),
        ("my_tiler".to_string(), "--help".to_string())
    );
    done.push(check("my_tiler", false, "no"));
    let results = results_of(check_gdal_tools(Some("my_tiler"), &done));
    assert_eq!(results.len(), 4);
    assert_eq!(results[3].tool, "my_tiler");
    assert_eq!(results[3].detail, "no");
}

#[test]
fn an_image_is_looked_for_before_it_is_read() {
    let document = output(true, DOCUMENT, "");
    let path = match inspect_step("/a.tif", None, Some(&document)) {
        InspectStep::CheckInput(path) => path,
        step => panic!("{:?}", step),
    };
    assert_eq!(path, "/a.tif");
    let args = match inspect_step("/a.tif", Some(true), None) {
        InspectStep::Run(args) => args,
        step => panic!("{:?}", step),
    };
    assert_eq!(args, vec!["-json".to_string(), "/a.tif".to_string()]);
    match inspect_step("/a.tif", Some(true), Some(&document)) {
        InspectStep::Done(Ok(info)) => assert_eq!(info.size, [1024, 768]),
        step => panic!("{:?}", step),
    }
    match inspect_step("/a.tif", Some(true), Some(&output(false, "", "no such band"))) {
        InspectStep::Done(Err(e)) => assert_eq!(e, "gdalinfo 执行失败: no such band"),
        step => panic!("{:?}", step),
    }
}

#[test]
fn an_image_that_is_missing_is_not_read() {
    let document = output(true, DOCUMENT, "");
    for outcome in [None, Some(&document)] {
        match inspect_step("/a.tif", Some(false), outcome) {
            InspectStep::Done(Err(e)) => assert_eq!(e, "输入文件不存在: /a.tif"),
            step => panic!("{:?}", step),
        }
    }
}
