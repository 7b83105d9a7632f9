use std::path::Path;
use tif2tiles::ids::default_output_dir;
use tif2tiles::ids::new_upload_run_id;
use tif2tiles::ids::preview_temp_path;
use tif2tiles::ids::rfc_1123_date;
use tif2tiles::ids::upload_run_id;
use tif2tiles::paths::extension;
use tif2tiles::paths::extension_of_name;
use tif2tiles::paths::file_stem;
use tif2tiles::paths::join_path;
use tif2tiles::paths::same_path;
use tif2tiles::paths::stem_of_name;

#[test]
fn extensions_and_stems_agree_with_std() {
    for p in [
        "", "/", "a", "a.tif", "/x/a.tar.gz", ".hidden", "/x/.hidden.txt", "a.", "..", "/x/..",
        "x/.", "a/b/", "层/图.TIF", "./a.b/c", "x..y", "/a/...", "..a",
    ] {
        let ext = Path::new(p).extension().map(|e| e.to_str().unwrap().to_string());
        let stem = Path::new(p).file_stem().map(|e| e.to_str().unwrap().to_string());
        assert_eq!(extension(p), ext, "{:?}", p);
        assert_eq!(file_stem(p), stem, "{:?}", p);
    }
    assert_eq!(extension_of_name("a.b.c"), Some("c".to_string()));
    assert_eq!(extension_of_name(".c"), None);
    assert_eq!(stem_of_name("a.b.c"), "a.b");
    assert_eq!(stem_of_name(".c"), ".c");
}

#[test]
fn one_directory_is_joined() {
    assert_eq!(join_path("/tmp", " tiles "), Ok("/tmp/tiles".to_string()));
    assert_eq!(join_path("/tmp/", "tiles"), Ok("/tmp/tiles".to_string()));
    assert_eq!(join_path("", "图"), Ok("图".to_string()));
    assert_eq!(join_path("/tmp", "."), Ok("/tmp/.".to_string()));
    assert_eq!(join_path("/tmp", "a.b"), Ok("/tmp/a.b".to_string()));
}

#[test]
fn paths_that_lead_elsewhere_are_refused() {
    for child in ["", "  ", "a/b", "/etc", "a\\b", "..", " .. ", "a..b", "../x"] {
        assert_eq!(join_path("/tmp", child), Err("非法子目录名".to_string()), "{:?}", child);
    }
}

#[test]
fn batch_names_are_the_milliseconds() {
    assert_eq!(upload_run_id(&Ok(1730123456789)), Ok("1730123456789".to_string()));
    assert_eq!(
        upload_run_id(&Err("clock".to_string())),
        Err("生成上传批次 ID 失败: clock".to_string())
    );
    let id = new_upload_run_id().unwrap();
    assert!(id.parse::<u128>().unwrap() > 1_600_000_000_000);
    assert_eq!(id.parse::<u128>().unwrap().to_string(), id);
}

#[test]
fn output_directories_are_fresh() {
    let a = default_output_dir("/tmp");
    let b = default_output_dir("/tmp");
    assert_ne!(a, b);
    let name = a.strip_prefix("/tmp/giff_tiles_").unwrap();
    assert_eq!(name.len(), 32);
    assert!(name.chars().all(|c| c.is_ascii_digit() || ('a'..='f').contains(&c)));
    assert_eq!(&name[12..13], "4");
}

#[test]
fn preview_files_are_fresh() {
    let a = preview_temp_path("/tmp", "gcj02");
    assert_ne!(a, preview_temp_path("/tmp", "gcj02"));
    let id = a.strip_prefix("/tmp/giff-preview-gcj02-").unwrap().strip_suffix(".vrt").unwrap();
    assert_eq!(id.len(), 36);
    let groups: Vec<usize> = id.split('-').map(|g| g.len()).collect();
    assert_eq!(groups, vec![8, 4, 4, 4, 12]);
}

#[test]
fn dates_have_the_form_of_http() {
    let d = rfc_1123_date();
    assert_eq!(d.len(), 29, "{}", d);
    assert!(d.ends_with(" GMT"));
    assert_eq!(&d[3..5], ", ");
    assert!(["Mon", "Tue", "Wed", "Thu", "Fri", "Sat", "Sun"].contains(&&d[0..3]));
    assert!(d[12..16].parse::<u32>().unwrap() >= 2020);
}

#[test]
fn extensions_of_paths_with_backslashes() {
    assert_eq!(extension("C:\\x\\gdal2tiles.py"), Some("py".to_string()));
    assert_eq!(extension("C:\\x.y/tool.EXE"), Some("EXE".to_string()));
    assert_eq!(extension("C:/Program Files/QGIS 3.34.0/bin/gdal2tiles"), None);
}

#[test]
fn the_parts_of_a_date() {
    let d = rfc_1123_date();
    let months =
        ["Jan", "Feb", "Mar", "Apr", "May", "Jun", "Jul", "Aug", "Sep", "Oct", "Nov", "Dec"];
    assert!(months.contains(&&d[8..11]), "{}", d);
    assert!((1..=31).contains(&d[5..7].parse::<u32>().unwrap()));
    let clock: Vec<u32> = d[17..25].split(':').map(|x| x.parse().unwrap()).collect();
    assert_eq!(clock.len(), 3);
    assert!(clock[0] < 24 && clock[1] < 60 && clock[2] <= 60);
}

#[test]
fn directories_of_every_platform_are_joined() {
    for parent in ["\\\\host\\share", "//host/share", "C:\\tiles", "C:\\tiles\\", "C:", "C:/", "a\\b", "x/"] {
        for child in ["t", "2024-01:a", "a:b", "."] {
            let joined = Path::new(parent).join(child).to_str().unwrap().to_string();
            assert_eq!(join_path(parent, child), Ok(joined), "{:?} {:?}", parent, child);
        }
    }
}

#[test]
fn names_behind_colons_and_shares() {
    for p in [
        "a:b.tif", "/x/2024-01:a.tif", "\\\\host\\share", "\\\\host\\share\\a.tif", "//host/share/a.b.tif",
        "C:a.tif", "C:", "C:\\", "\\\\?\\C:\\a.tif", "a\\b.c\\d",
    ] {
        let ext = Path::new(p).extension().map(|e| e.to_str().unwrap().to_string());
        let stem = Path::new(p).file_stem().map(|e| e.to_str().unwrap().to_string());
        assert_eq!(extension(p), ext, "{:?}", p);
        assert_eq!(file_stem(p), stem, "{:?}", p);
    }
}

#[test]
fn paths_are_compared_by_their_components() {
    let paths = [
        "", ".", "/", "a", "a/", "./a", "a/.", "a//b", "a/b", "/a/b", "/a/./b/", "a/..", "C:\\a", "C:/a",
        "\\\\?\\C:\\a", "图/b",
    ];
    for a in paths {
        for b in paths {
            assert_eq!(same_path(a, b), Path::new(a) == Path::new(b), "{:?} {:?}", a, b);
        }
    }
}
