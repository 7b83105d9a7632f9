use tif2tiles::gdal_env::build_command;
use tif2tiles::gdal_env::candidate_bin_dirs;
use tif2tiles::gdal_env::candidate_dirs_from;
use tif2tiles::gdal_env::command_plan;
use tif2tiles::gdal_env::detect_gdal_bin_dir;
use tif2tiles::gdal_env::find_tool_in_dir;
use tif2tiles::gdal_env::is_python_script;
use tif2tiles::gdal_env::needs_search;
use tif2tiles::gdal_env::prepend_env_path;
use tif2tiles::gdal_env::resolve_python_executable;
use tif2tiles::gdal_env::resolve_tool_path;
use tif2tiles::gdal_env::tool_paths;
use tif2tiles::gdal_env::tool_site;
use tif2tiles::gdal_env::unique_texts;
use tif2tiles::gdal_env::DirProbe;
use tif2tiles::gdal_env::HostDirs;
use tif2tiles::gdal_env::PathProbe;
use tif2tiles::gdal_env::StartHost;

fn host() -> HostDirs {
    HostDirs {
        gdal_bin_dir: None,
        current_dir: None,
        exe_path: None,
        user_profile: None,
        windows: false,
    }
}

fn s(x: &str) -> String {
    x.to_string()
}

#[test]
fn package_managers_are_always_searched() {
    assert_eq!(
        candidate_bin_dirs(&host()),
        vec!["/opt/homebrew/bin", "/usr/local/bin", "/opt/local/bin"]
    );
}

#[test]
fn places_of_the_program_are_searched_first() {
    let mut h = host();
    h.gdal_bin_dir = Some(s("/opt/gdal"));
    h.current_dir = Some(s("/work"));
    h.exe_path = Some(s("/app/bin/tool"));
    h.user_profile = Some(s("/home/u"));
    assert_eq!(
        candidate_bin_dirs(&h),
        vec![
            "/opt/gdal",
            "/work/gdal/bin",
            "/app/bin",
            "/app/bin/../Resources/gdal/bin",
            "/app/bin/../resources/gdal/bin",
            "/app/bin/resources/gdal/bin",
            "/opt/homebrew/bin",
            "/usr/local/bin",
            "/opt/local/bin"
        ]
    );
    assert_eq!(candidate_dirs_from(&h, None).len(), 5);
}

#[test]
fn windows_has_more_places() {
    let mut h = host();
    h.windows = true;
    let dirs = candidate_bin_dirs(&h);
    assert_eq!(dirs.len(), 7);
    assert_eq!(dirs[3], "C:/OSGeo4W64/bin");
    assert_eq!(dirs[6], "C:/Program Files/QGIS 3.34.0/bin");
    h.user_profile = Some(s("/users/u"));
    let dirs = candidate_bin_dirs(&h);
    assert_eq!(dirs.len(), 17);
    assert_eq!(dirs[7], "/users/u/miniconda3/Library/bin");
    assert_eq!(dirs[16], "/users/u/AppData/Local/conda/conda/envs/gdal-mini/Scripts");
}

#[test]
fn no_place_is_searched_twice() {
    let mut h = host();
    h.gdal_bin_dir = Some(s("/usr/local/bin"));
    assert_eq!(
        candidate_bin_dirs(&h),
        vec!["/usr/local/bin", "/opt/homebrew/bin", "/opt/local/bin"]
    );
    assert_eq!(unique_texts(&vec![s("b"), s("a"), s("b"), s("a")]), vec!["b", "a"]);
}

#[test]
fn names_of_a_tool_depend_on_the_platform() {
    assert_eq!(tool_paths("/bin", "gdalinfo", false), vec!["/bin/gdalinfo"]);
    assert_eq!(
        tool_paths("/bin", "gdalinfo", true),
        vec![
            "/bin/gdalinfo",
            "/bin/gdalinfo.exe",
            "/bin/gdalinfo.bat",
            "/bin/gdalinfo.cmd",
            "/bin/gdalinfo.py"
        ]
    );
}

fn probe(path: &str, exists: bool) -> PathProbe {
    PathProbe { path: s(path), exists }
}

#[test]
fn the_first_existing_name_is_the_tool() {
    let probes = vec![probe("/a", false), probe("/a.exe", true), probe("/a.bat", true)];
    assert_eq!(find_tool_in_dir(&probes), Some(s("/a.exe")));
    assert_eq!(find_tool_in_dir(&vec![probe("/a", false)]), None);
    assert_eq!(find_tool_in_dir(&vec![]), None);
}

fn dir(name: &str, info: bool, warp: bool, translate: bool) -> DirProbe {
    DirProbe {
        dir: s(name),
        gdalinfo: vec![probe("i", info)],
        gdalwarp: vec![probe("w", warp)],
        gdal_translate: vec![probe("t", translate)],
    }
}

#[test]
fn a_directory_needs_all_three_tools() {
    let dirs = vec![
        dir("/a", true, true, false),
        dir("/b", true, true, true),
        dir("/c", true, true, true),
    ];
    assert_eq!(detect_gdal_bin_dir(&dirs), Some(s("/b")));
    assert_eq!(detect_gdal_bin_dir(&vec![dir("/a", true, false, true)]), None);
    assert_eq!(detect_gdal_bin_dir(&vec![]), None);
}

#[test]
fn the_path_of_a_tool() {
    let found = vec![vec![probe("/x/t", false)], vec![probe("/y/t", true)]];
    let none: Vec<Vec<PathProbe>> = vec![];
    assert_eq!(resolve_tool_path("t", Some("/dir"), '/', &found), "/dir/t");
    assert_eq!(resolve_tool_path("t", None, '/', &found), "/y/t");
    assert_eq!(resolve_tool_path("t", None, '/', &none), "t");
    assert_eq!(resolve_tool_path("/own/t", None, '/', &found), "/own/t");
    assert_eq!(resolve_tool_path("/own/t", Some("/dir"), '/', &found), "/own/t");
    assert!(needs_search("t", None, '/'));
    assert!(!needs_search("t", Some("/dir"), '/'));
    assert!(!needs_search("a/t", None, '/'));
    assert!(needs_search("a/t", None, '\\'));
}

#[test]
fn scripts_run_through_the_interpreter() {
    assert_eq!(resolve_python_executable(true), "py");
    assert_eq!(resolve_python_executable(false), "python3");
    assert!(is_python_script("/bin/gdal2tiles.py"));
    assert!(is_python_script("gdal2tiles.PY"));
    assert!(!is_python_script("/bin/gdal2tiles"));
    assert!(!is_python_script("/bin.py/gdal2tiles"));
}

#[test]
fn new_paths_go_in_front() {
    assert_eq!(prepend_env_path("/n", Some("/a:/b"), false), "/n:/a:/b");
    assert_eq!(prepend_env_path("/n", Some("/a"), true), "/n;/a");
    assert_eq!(prepend_env_path("/n", Some("  "), false), "/n");
    assert_eq!(prepend_env_path("/n", None, false), "/n");
}

fn start_host() -> StartHost {
    StartHost {
        windows: false,
        macos: false,
        lib_exists: true,
        gdal_data_exists: true,
        proj_data_exists: true,
        dyld_library_path: Some(s("/old")),
        path: Some(s("/usr/bin")),
    }
}

#[test]
fn the_surroundings_of_a_tool() {
    let site = tool_site("/opt/gdal/bin/gdalinfo").unwrap();
    assert_eq!(site.bin_dir, "/opt/gdal/bin");
    assert_eq!(site.lib_dir, "/opt/gdal/lib");
    assert_eq!(site.gdal_data, "/opt/gdal/share/gdal");
    assert_eq!(site.proj_data, "/opt/gdal/share/proj");
    let bare = tool_site("gdalinfo").unwrap();
    assert_eq!(bare.bin_dir, "");
    assert_eq!(bare.lib_dir, "lib");
    assert!(tool_site("").is_none());
}

fn env_of(plan: &tif2tiles::gdal_env::CommandPlan) -> Vec<String> {
    plan.env.iter().map(|e| format!("{}={}", e.key, e.value)).collect()
}

#[test]
fn a_program_is_started_in_its_surroundings() {
    let site = tool_site("/opt/gdal/bin/gdalinfo");
    let plan = build_command("/opt/gdal/bin/gdalinfo", site.as_ref(), &start_host());
    assert_eq!(plan.program, "/opt/gdal/bin/gdalinfo");
    assert!(plan.args.is_empty());
    assert_eq!(
        env_of(&plan),
        vec![
            "GDAL_DATA=/opt/gdal/share/gdal",
            "PROJ_LIB=/opt/gdal/share/proj",
            "PATH=/opt/gdal/bin:/usr/bin"
        ]
    );
    let mut mac = start_host();
    mac.macos = true;
    mac.gdal_data_exists = false;
    mac.proj_data_exists = false;
    let plan = build_command("/opt/gdal/bin/gdalinfo", site.as_ref(), &mac);
    assert_eq!(
        env_of(&plan),
        vec!["DYLD_LIBRARY_PATH=/opt/gdal/lib:/old", "PATH=/opt/gdal/bin:/usr/bin"]
    );
}

#[test]
fn a_script_is_started_through_the_interpreter() {
    let site = tool_site("/opt/bin/gdal2tiles.py");
    let plan = build_command("/opt/bin/gdal2tiles.py", site.as_ref(), &start_host());
    assert_eq!(plan.program, "python3");
    assert_eq!(plan.args, vec!["/opt/bin/gdal2tiles.py"]);
    let mut windows = start_host();
    windows.windows = true;
    let plan = command_plan("C:/x/gdal2tiles.py", true, None, &windows);
    assert_eq!(plan.program, "py");
    assert_eq!(plan.args, vec!["C:/x/gdal2tiles.py"]);
    assert!(plan.env.is_empty());
}
