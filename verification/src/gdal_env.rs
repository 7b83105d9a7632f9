//! Where the GDAL tools are looked for, and how they are started.

use crate::paths::ends_in_name;
use crate::paths::extension;
use crate::paths::extension_outcome;
use crate::paths::has_separator;
use crate::paths::is_regular;
use crate::paths::is_separator;
use crate::paths::joined;
use crate::paths::parent_outcome;
use crate::paths::path_join;
use crate::paths::path_parent;
use crate::paths::written_extension_is_read;
use crate::text::ascii_lower;
use crate::text::as_opt_str;
use crate::text::case_is_that_of_ascii_letters;
use crate::text::concat2;
use crate::text::concat3;
use crate::text::contains_char;
use crate::text::lower_char;
use crate::text::opt_str;
use crate::text::opt_text;
use crate::text::push_text;
use crate::text::same_text;
use crate::text::texts;
use crate::text::to_ascii_lower;
use crate::text::trim;
use crate::text::trimmed;
use crate::text::upper_char;
use vstd::prelude::*;

verus! {

/// What the search for the tools reads of the host: the directory that the environment names, the
/// working directory, the path of the running program and the home directory of the user.
#[derive(Debug, Clone)]
pub struct HostDirs {
    pub gdal_bin_dir: Option<String>,
    pub current_dir: Option<String>,
    pub exe_path: Option<String>,
    pub user_profile: Option<String>,
    pub windows: bool,
}

/// A place of the search: a directory, or a path below a directory.
pub ghost enum Slot {
    Exact(Seq<char>),
    Under(Seq<char>, Seq<char>),
}

/// The directory is the one of the place.
pub open spec fn slot_holds(slot: Slot, dir: Seq<char>) -> bool {
    match slot {
        Slot::Exact(d) => dir == d,
        Slot::Under(parent, child) => joined(parent, child, dir),
    }
}

/// The directories are those of the places, in their order.
pub open spec fn fits(slots: Seq<Slot>, dirs: Seq<Seq<char>>) -> bool {
    &&& slots.len() == dirs.len()
    &&& forall|i: int| 0 <= i < slots.len() ==> slot_holds(#[trigger] slots[i], dirs[i])
}

/// The places that every platform has, in the order of the search.
pub open spec fn common_slots(
    gdal_bin_dir: Option<Seq<char>>,
    current_dir: Option<Seq<char>>,
    exe_dir: Option<Seq<char>>,
) -> Seq<Slot> {
    let a = match gdal_bin_dir {
        Some(d) => seq![Slot::Exact(d)],
        None => Seq::empty(),
    };
    let b = match current_dir {
        Some(d) => a.push(Slot::Under(d, "gdal/bin"@)),
        None => a,
    };
    let c = match exe_dir {
        Some(d) => b.push(Slot::Exact(d)).push(Slot::Under(d, "../Resources/gdal/bin"@)).push(
            Slot::Under(d, "../resources/gdal/bin"@),
        ).push(Slot::Under(d, "resources/gdal/bin"@)),
        None => b,
    };
    c.push(Slot::Exact("/opt/homebrew/bin"@)).push(Slot::Exact("/usr/local/bin"@)).push(
        Slot::Exact("/opt/local/bin"@),
    )
}

/// The places of the search on Windows that do not depend on the user.
pub open spec fn windows_slots(before: Seq<Slot>) -> Seq<Slot> {
    before.push(Slot::Exact("C:/OSGeo4W64/bin"@)).push(Slot::Exact("C:/OSGeo4W/bin"@)).push(
        Slot::Exact("C:/Program Files/QGIS/bin"@),
    ).push(Slot::Exact("C:/Program Files/QGIS 3.34.0/bin"@))
}

/// The places of the search below the home directory of a user on Windows.
pub open spec fn user_slots(before: Seq<Slot>, home: Seq<char>) -> Seq<Slot> {
    before.push(Slot::Under(home, "miniconda3/Library/bin"@)).push(
        Slot::Under(home, "Miniconda3/Library/bin"@),
    ).push(Slot::Under(home, "miniconda3/Scripts"@)).push(
        Slot::Under(home, "Miniconda3/Scripts"@),
    ).push(Slot::Under(home, "miniconda3/envs/gdal-mini/Library/bin"@)).push(
        Slot::Under(home, "Miniconda3/envs/gdal-mini/Library/bin"@),
    ).push(Slot::Under(home, "miniconda3/envs/gdal-mini/Scripts"@)).push(
        Slot::Under(home, "Miniconda3/envs/gdal-mini/Scripts"@),
    ).push(Slot::Under(home, "AppData/Local/conda/conda/envs/gdal-mini/Library/bin"@)).push(
        Slot::Under(home, "AppData/Local/conda/conda/envs/gdal-mini/Scripts"@),
    )
}

/// All the places of the search, in its order.
pub open spec fn host_slots(host: HostDirs, exe_dir: Option<Seq<char>>) -> Seq<Slot> {
    let common = common_slots(opt_text(host.gdal_bin_dir), opt_text(host.current_dir), exe_dir);
    if host.windows {
        match opt_text(host.user_profile) {
            Some(home) => user_slots(windows_slots(common), home),
            None => windows_slots(common),
        }
    } else {
        common
    }
}

/// The texts without repetitions; of equal texts the first stays.
pub open spec fn unique(all: Seq<Seq<char>>) -> Seq<Seq<char>>
    decreases all.len(),
{
    if all.len() == 0 {
        all
    } else {
        let before = unique(all.drop_last());
        if before.contains(all.last()) {
            before
        } else {
            before.push(all.last())
        }
    }
}

/// The search directories are the places of the search without repetitions.
pub open spec fn search_order(host: HostDirs, exe_dir: Option<Seq<char>>, dirs: Seq<Seq<char>>) -> bool {
    exists|all: Seq<Seq<char>>|
        #[trigger] fits(host_slots(host, exe_dir), all) && dirs == unique(all)
}

/// The directory of the running program.
pub open spec fn exe_dir_outcome(exe_path: Option<Seq<char>>, exe_dir: Option<Seq<char>>) -> bool {
    match exe_path {
        Some(p) => parent_outcome(p, exe_dir),
        None => exe_dir is None,
    }
}

fn holds_text(v: &Vec<String>, s: &str) -> (r: bool)
    ensures
        r == texts(v@).contains(s@),
{
    let mut i: usize = 0;
    while i < v.len()
        invariant
            i <= v.len(),
            forall|j: int| 0 <= j < i ==> texts(v@)[j] != s@,
        decreases v.len() - i,
    {
        if same_text(v[i].as_str(), s) {
            assert(texts(v@)[i as int] == s@);
            return true;
        }
        i += 1;
    }
    false
}

/// The texts without repetitions.
pub fn unique_texts(all: &Vec<String>) -> (r: Vec<String>)
    ensures
        texts(r@) == unique(texts(all@)),
{
    let mut out: Vec<String> = Vec::new();
    let mut i: usize = 0;
    assert(texts(out@) == unique(texts(all@).take(0)));
    while i < all.len()
        invariant
            i <= all.len(),
            texts(out@) == unique(texts(all@).take(i as int)),
        decreases all.len() - i,
    {
        assert(texts(all@).take(i + 1).drop_last() == texts(all@).take(i as int));
        assert(texts(all@).take(i + 1).last() == all@[i as int]@);
        if !holds_text(&out, all[i].as_str()) {
            push_text(&mut out, all[i].as_str());
        }
        i += 1;
    }
    assert(texts(all@).take(all@.len() as int) == texts(all@));
    out
}

fn add_dir(all: &mut Vec<String>, Ghost(slots): Ghost<Seq<Slot>>, dir: &str)
    requires
        fits(slots, texts(old(all)@)),
    ensures
        fits(slots.push(Slot::Exact(dir@)), texts(final(all)@)),
{
    push_text(all, dir);
}

fn add_below(all: &mut Vec<String>, Ghost(slots): Ghost<Seq<Slot>>, parent: &str, child: &str)
    requires
        fits(slots, texts(old(all)@)),
    ensures
        fits(slots.push(Slot::Under(parent@, child@)), texts(final(all)@)),
{
    let dir = path_join(parent, child);
    push_text(all, dir.as_str());
}

fn add_all_below(
    all: &mut Vec<String>,
    Ghost(slots): Ghost<Seq<Slot>>,
    parent: &str,
    a: &str,
    b: &str,
)
    requires
        fits(slots, texts(old(all)@)),
    ensures
        fits(
            slots.push(Slot::Under(parent@, a@)).push(Slot::Under(parent@, b@)),
            texts(final(all)@),
        ),
{
    add_below(all, Ghost(slots), parent, a);
    add_below(all, Ghost(slots.push(Slot::Under(parent@, a@))), parent, b);
}

fn add_common(all: &mut Vec<String>, host: &HostDirs, exe_dir: Option<&str>)
    requires
        old(all)@.len() == 0,
    ensures
        fits(
            common_slots(
                opt_text(host.gdal_bin_dir),
                opt_text(host.current_dir),
                opt_str(exe_dir),
            ),
            texts(final(all)@),
        ),
{
    let ghost mut slots: Seq<Slot> = Seq::empty();
    assert(fits(slots, texts(all@)));
    if let Some(dir) = &host.gdal_bin_dir {
        add_dir(all, Ghost(slots), dir.as_str());
        proof {
            slots = slots.push(Slot::Exact(dir@));
            assert(slots == seq![Slot::Exact(dir@)]);
        }
    }
    if let Some(cwd) = &host.current_dir {
        add_below(all, Ghost(slots), cwd.as_str(), "gdal/bin");
        proof {
            slots = slots.push(Slot::Under(cwd@, "gdal/bin"@));
        }
    }
    if let Some(dir) = exe_dir {
        add_dir(all, Ghost(slots), dir);
        proof {
            slots = slots.push(Slot::Exact(dir@));
        }
        add_all_below(
            all,
            Ghost(slots),
            dir,
            "../Resources/gdal/bin",
            "../resources/gdal/bin",
        );
        proof {
            slots = slots.push(Slot::Under(dir@, "../Resources/gdal/bin"@)).push(
                Slot::Under(dir@, "../resources/gdal/bin"@),
            );
        }
        add_below(all, Ghost(slots), dir, "resources/gdal/bin");
        proof {
            slots = slots.push(Slot::Under(dir@, "resources/gdal/bin"@));
        }
    }
    add_dir(all, Ghost(slots), "/opt/homebrew/bin");
    proof {
        slots = slots.push(Slot::Exact("/opt/homebrew/bin"@));
    }
    add_dir(all, Ghost(slots), "/usr/local/bin");
    proof {
        slots = slots.push(Slot::Exact("/usr/local/bin"@));
    }
    add_dir(all, Ghost(slots), "/opt/local/bin");
}

fn add_windows(all: &mut Vec<String>, Ghost(before): Ghost<Seq<Slot>>)
    requires
        fits(before, texts(old(all)@)),
    ensures
        fits(windows_slots(before), texts(final(all)@)),
{
    add_dir(all, Ghost(before), "C:/OSGeo4W64/bin");
    let ghost a = before.push(Slot::Exact("C:/OSGeo4W64/bin"@));
    add_dir(all, Ghost(a), "C:/OSGeo4W/bin");
    let ghost b = a.push(Slot::Exact("C:/OSGeo4W/bin"@));
    add_dir(all, Ghost(b), "C:/Program Files/QGIS/bin");
    let ghost c = b.push(Slot::Exact("C:/Program Files/QGIS/bin"@));
    add_dir(all, Ghost(c), "C:/Program Files/QGIS 3.34.0/bin");
}

fn add_user(all: &mut Vec<String>, Ghost(before): Ghost<Seq<Slot>>, home: &str)
    requires
        fits(before, texts(old(all)@)),
    ensures
        fits(user_slots(before, home@), texts(final(all)@)),
{
    add_all_below(all, Ghost(before), home, "miniconda3/Library/bin", "Miniconda3/Library/bin");
    let ghost a = before.push(Slot::Under(home@, "miniconda3/Library/bin"@)).push(
        Slot::Under(home@, "Miniconda3/Library/bin"@),
    );
    add_all_below(all, Ghost(a), home, "miniconda3/Scripts", "Miniconda3/Scripts");
    let ghost b = a.push(Slot::Under(home@, "miniconda3/Scripts"@)).push(
        Slot::Under(home@, "Miniconda3/Scripts"@),
    );
    add_all_below(
        all,
        Ghost(b),
        home,
        "miniconda3/envs/gdal-mini/Library/bin",
        "Miniconda3/envs/gdal-mini/Library/bin",
    );
    let ghost c = b.push(Slot::Under(home@, "miniconda3/envs/gdal-mini/Library/bin"@)).push(
        Slot::Under(home@, "Miniconda3/envs/gdal-mini/Library/bin"@),
    );
    add_all_below(
        all,
        Ghost(c),
        home,
        "miniconda3/envs/gdal-mini/Scripts",
        "Miniconda3/envs/gdal-mini/Scripts",
    );
    let ghost d = c.push(Slot::Under(home@, "miniconda3/envs/gdal-mini/Scripts"@)).push(
        Slot::Under(home@, "Miniconda3/envs/gdal-mini/Scripts"@),
    );
    add_all_below(
        all,
        Ghost(d),
        home,
        "AppData/Local/conda/conda/envs/gdal-mini/Library/bin",
        "AppData/Local/conda/conda/envs/gdal-mini/Scripts",
    );
}

/// The search directories, with the directory of the running program given.
pub fn candidate_dirs_from(host: &HostDirs, exe_dir: Option<&str>) -> (r: Vec<String>)
    ensures
        search_order(*host, opt_str(exe_dir), texts(r@)),
{
    let mut all: Vec<String> = Vec::new();
    add_common(&mut all, host, exe_dir);
    let ghost common = common_slots(
        opt_text(host.gdal_bin_dir),
        opt_text(host.current_dir),
        opt_str(exe_dir),
    );
    if host.windows {
        add_windows(&mut all, Ghost(common));
        if let Some(home) = &host.user_profile {
            add_user(&mut all, Ghost(windows_slots(common)), home.as_str());
        }
    }
    assert(fits(host_slots(*host, opt_str(exe_dir)), texts(all@)));
    unique_texts(&all)
}

/// The directories in which the tools are looked for, in this order: the one that the environment
/// names, those beside the working directory and the running program, and those where package
/// managers put them.
pub fn candidate_bin_dirs(host: &HostDirs) -> (r: Vec<String>)
    ensures
        exists|exe_dir: Option<Seq<char>>|
            exe_dir_outcome(opt_text(host.exe_path), exe_dir) && #[trigger] search_order(
                *host,
                exe_dir,
                texts(r@),
            ),
{
    let exe_dir = match &host.exe_path {
        Some(p) => path_parent(p.as_str()),
        None => None,
    };
    let dir = match &exe_dir {
        Some(d) => Some(d.as_str()),
        None => None,
    };
    assert(opt_str(dir) == opt_text(exe_dir));
    candidate_dirs_from(host, dir)
}

/// A list without repetitions holds what the whole list holds, each once.
pub proof fn unique_has_all(all: Seq<Seq<char>>)
    ensures
        unique(all).no_duplicates(),
        forall|d: Seq<char>| #[trigger] unique(all).contains(d) <==> all.contains(d),
    decreases all.len(),
{
    if all.len() > 0 {
        let rest = all.drop_last();
        let u = unique(rest);
        unique_has_all(rest);
        assert(all == rest.push(all.last()));
        assert forall|d: Seq<char>| #[trigger] unique(all).contains(d) <==> all.contains(d) by {
            if all.contains(d) {
                let i = choose|i: int| 0 <= i < all.len() && all[i] == d;
                if i < rest.len() {
                    assert(rest[i] == d);
                    assert(rest.contains(d));
                    assert(u.contains(d));
                    let j = choose|j: int| 0 <= j < u.len() && u[j] == d;
                    assert(unique(all)[j] == d);
                } else {
                    if !u.contains(d) {
                        assert(unique(all)[u.len() as int] == d);
                    }
                }
            }
            if unique(all).contains(d) {
                let j = choose|j: int| 0 <= j < unique(all).len() && unique(all)[j] == d;
                if j < u.len() {
                    assert(u[j] == d);
                    assert(u.contains(d));
                    assert(rest.contains(d));
                    let i = choose|i: int| 0 <= i < rest.len() && rest[i] == d;
                    assert(all[i] == d);
                } else {
                    assert(all[all.len() - 1] == d);
                }
            }
        }
    } else {
        assert forall|d: Seq<char>| #[trigger] unique(all).contains(d) <==> all.contains(d) by {}
    }
}

/// No directory is searched twice, whatever the host.
pub proof fn search_has_no_repetition(
    host: HostDirs,
    exe_dir: Option<Seq<char>>,
    dirs: Seq<Seq<char>>,
)
    requires
        search_order(host, exe_dir, dirs),
    ensures
        dirs.no_duplicates(),
{
    let all = choose|all: Seq<Seq<char>>|
        #[trigger] fits(host_slots(host, exe_dir), all) && dirs == unique(all);
    unique_has_all(all);
}

// Finding the tools.

/// A path and whether something is there.
#[derive(Debug, Clone)]
pub struct PathProbe {
    pub path: String,
    pub exists: bool,
}

/// The paths that may hold a tool in a directory: the plain name, and on Windows also the name
/// with an extension of a program or a script.
pub open spec fn tool_slots(dir: Seq<char>, tool: Seq<char>, windows: bool) -> Seq<Slot> {
    if windows {
        seq![
            Slot::Under(dir, tool),
            Slot::Under(dir, tool + ".exe"@),
            Slot::Under(dir, tool + ".bat"@),
            Slot::Under(dir, tool + ".cmd"@),
            Slot::Under(dir, tool + ".py"@),
        ]
    } else {
        seq![Slot::Under(dir, tool)]
    }
}

/// The paths that may hold a tool in a directory, in the order in which they are tried.
pub fn tool_paths(dir: &str, tool: &str, windows: bool) -> (r: Vec<String>)
    ensures
        fits(tool_slots(dir@, tool@, windows), texts(r@)),
{
    let mut all: Vec<String> = Vec::new();
    let ghost none: Seq<Slot> = Seq::empty();
    add_below(&mut all, Ghost(none), dir, tool);
    if windows {
        let ghost a = none.push(Slot::Under(dir@, tool@));
        let exe = concat2(tool, ".exe");
        let bat = concat2(tool, ".bat");
        add_all_below(&mut all, Ghost(a), dir, exe.as_str(), bat.as_str());
        let ghost b = a.push(Slot::Under(dir@, tool@ + ".exe"@)).push(
            Slot::Under(dir@, tool@ + ".bat"@),
        );
        let cmd = concat2(tool, ".cmd");
        let py = concat2(tool, ".py");
        add_all_below(&mut all, Ghost(b), dir, cmd.as_str(), py.as_str());
        assert(b.push(Slot::Under(dir@, tool@ + ".cmd"@)).push(Slot::Under(dir@, tool@ + ".py"@))
            =~= tool_slots(dir@, tool@, windows));
    } else {
        assert(none.push(Slot::Under(dir@, tool@)) =~= tool_slots(dir@, tool@, windows));
    }
    all
}

/// The first path at which something is.
pub open spec fn first_existing(probes: Seq<PathProbe>) -> Option<Seq<char>>
    decreases probes.len(),
{
    if probes.len() == 0 {
        None
    } else if probes[0].exists {
        Some(probes[0].path@)
    } else {
        first_existing(probes.drop_first())
    }
}

/// The tool in a directory: the first of its paths at which something is.
pub fn find_tool_in_dir(probes: &Vec<PathProbe>) -> (r: Option<String>)
    ensures
        opt_text(r) == first_existing(probes@),
{
    let mut i: usize = 0;
    assert(probes@.skip(0) == probes@);
    while i < probes.len()
        invariant
            i <= probes.len(),
            first_existing(probes@) == first_existing(probes@.skip(i as int)),
        decreases probes.len() - i,
    {
        assert(probes@.skip(i as int)[0] == probes@[i as int]);
        assert(probes@.skip(i as int).drop_first() == probes@.skip(i + 1));
        if probes[i].exists {
            return Some(probes[i].path.clone());
        }
        i += 1;
    }
    None
}

/// A directory of the search, with what was found of the tools that a usable one must have.
#[derive(Debug, Clone)]
pub struct DirProbe {
    pub dir: String,
    pub gdalinfo: Vec<PathProbe>,
    pub gdalwarp: Vec<PathProbe>,
    pub gdal_translate: Vec<PathProbe>,
}

/// The directory has the tools that are needed.
pub open spec fn has_required(probe: DirProbe) -> bool {
    first_existing(probe.gdalinfo@) is Some && first_existing(probe.gdalwarp@) is Some
        && first_existing(probe.gdal_translate@) is Some
}

/// The first directory that has the tools that are needed.
pub open spec fn first_complete(dirs: Seq<DirProbe>) -> Option<Seq<char>>
    decreases dirs.len(),
{
    if dirs.len() == 0 {
        None
    } else if has_required(dirs[0]) {
        Some(dirs[0].dir@)
    } else {
        first_complete(dirs.drop_first())
    }
}

/// The first directory of the search that holds `gdalinfo`, `gdalwarp` and `gdal_translate`.
pub fn detect_gdal_bin_dir(dirs: &Vec<DirProbe>) -> (r: Option<String>)
    ensures
        opt_text(r) == first_complete(dirs@),
{
    let mut i: usize = 0;
    assert(dirs@.skip(0) == dirs@);
    while i < dirs.len()
        invariant
            i <= dirs.len(),
            first_complete(dirs@) == first_complete(dirs@.skip(i as int)),
        decreases dirs.len() - i,
    {
        assert(dirs@.skip(i as int)[0] == dirs@[i as int]);
        assert(dirs@.skip(i as int).drop_first() == dirs@.skip(i + 1));
        if find_tool_in_dir(&dirs[i].gdalinfo).is_some() && find_tool_in_dir(
            &dirs[i].gdalwarp,
        ).is_some() && find_tool_in_dir(&dirs[i].gdal_translate).is_some() {
            return Some(dirs[i].dir.clone());
        }
        i += 1;
    }
    None
}

/// A directory is detected exactly where one has the tools, and the detected one has them and is
/// the first that does.
pub proof fn detected_is_first_complete(dirs: Seq<DirProbe>)
    ensures
        first_complete(dirs) is Some <==> exists|i: int|
            0 <= i < dirs.len() && has_required(#[trigger] dirs[i]),
        first_complete(dirs) matches Some(d) ==> exists|i: int|
            0 <= i < dirs.len() && has_required(#[trigger] dirs[i]) && dirs[i].dir@ == d && (forall|
                j: int,
            |
                0 <= j < i ==> !has_required(#[trigger] dirs[j])),
    decreases dirs.len(),
{
    if dirs.len() > 0 {
        if has_required(dirs[0]) {
            assert(has_required(dirs[0]) && dirs[0].dir@ == first_complete(dirs)->0);
        } else {
            let rest = dirs.drop_first();
            detected_is_first_complete(rest);
            if first_complete(rest) is Some {
                let i = choose|i: int|
                    0 <= i < rest.len() && has_required(#[trigger] rest[i]) && rest[i].dir@
                        == first_complete(rest)->0 && (forall|j: int|
                        0 <= j < i ==> !has_required(#[trigger] rest[j]));
                assert(dirs[i + 1] == rest[i]);
                assert forall|j: int| 0 <= j < i + 1 implies !has_required(#[trigger] dirs[j]) by {
                    if j > 0 {
                        assert(dirs[j] == rest[j - 1]);
                    }
                }
            } else {
                assert forall|i: int| 0 <= i < dirs.len() implies !has_required(
                    #[trigger] dirs[i],
                ) by {
                    if i > 0 {
                        assert(dirs[i] == rest[i - 1]);
                    }
                }
            }
        }
    }
}

/// The first tool that was found, directory by directory.
pub open spec fn first_found(dirs: Seq<Vec<PathProbe>>) -> Option<Seq<char>>
    decreases dirs.len(),
{
    if dirs.len() == 0 {
        None
    } else {
        match first_existing(dirs[0]@) {
            Some(p) => Some(p),
            None => first_found(dirs.drop_first()),
        }
    }
}

/// Whether a tool has to be looked for: no directory is given, and its name is no path.
pub open spec fn is_searched(tool: Seq<char>, gdal_bin_dir: Option<Seq<char>>, separator: char) -> bool {
    gdal_bin_dir is None && !tool.contains(separator)
}

/// Whether [`resolve_tool_path`] reads what was found in the search directories.
pub fn needs_search(tool: &str, gdal_bin_dir: Option<&str>, separator: char) -> (r: bool)
    ensures
        r == is_searched(tool@, opt_str(gdal_bin_dir), separator),
{
    gdal_bin_dir.is_none() && !contains_char(tool, separator)
}

/// The path of a tool: inside the given directory; as it stands where the name is a path already;
/// else the first that was found in the search directories, or the bare name.
pub fn resolve_tool_path(
    tool: &str,
    gdal_bin_dir: Option<&str>,
    separator: char,
    found: &Vec<Vec<PathProbe>>,
) -> (r: String)
    ensures
        match opt_str(gdal_bin_dir) {
            Some(dir) => joined(dir, tool@, r@),
            None => r@ == if tool@.contains(separator) {
                tool@
            } else {
                match first_found(found@) {
                    Some(p) => p,
                    None => tool@,
                }
            },
        },
{
    if let Some(dir) = gdal_bin_dir {
        return path_join(dir, tool);
    }
    if contains_char(tool, separator) {
        return tool.to_string();
    }
    let mut i: usize = 0;
    assert(found@.skip(0) == found@);
    while i < found.len()
        invariant
            i <= found.len(),
            gdal_bin_dir is None,
            !tool@.contains(separator),
            first_found(found@) == first_found(found@.skip(i as int)),
        decreases found.len() - i,
    {
        assert(found@.skip(i as int)[0] == found@[i as int]);
        assert(found@.skip(i as int).drop_first() == found@.skip(i + 1));
        if let Some(p) = find_tool_in_dir(&found[i]) {
            return p;
        }
        i += 1;
    }
    tool.to_string()
}

// Starting the tools.

/// The interpreter that runs Python scripts.
pub fn resolve_python_executable(windows: bool) -> (r: &'static str)
    ensures
        r@ == (if windows {
            "py"@
        } else {
            "python3"@
        }),
{
    if windows {
        "py"
    } else {
        "python3"
    }
}

/// A search path with a new directory in front of what it was; a blank one is replaced.
pub open spec fn prepended(
    new_path: Seq<char>,
    before: Option<Seq<char>>,
    windows: bool,
) -> Seq<char> {
    match before {
        Some(b) => if trimmed(b).len() > 0 {
            new_path + (if windows {
                ";"@
            } else {
                ":"@
            }) + b
        } else {
            new_path
        },
        None => new_path,
    }
}

/// A search path of the environment with a new directory in front.
pub fn prepend_env_path(new_path: &str, before: Option<&str>, windows: bool) -> (r: String)
    ensures
        r@ == prepended(new_path@, opt_str(before), windows),
{
    let separator = if windows {
        ";"
    } else {
        ":"
    };
    match before {
        Some(b) => {
            if trim(b).as_str().is_empty() {
                new_path.to_string()
            } else {
                concat3(new_path, separator, b)
            }
        },
        None => new_path.to_string(),
    }
}

/// The directories around a tool that matter to a start of it.
#[derive(Debug, Clone)]
pub struct ToolSite {
    pub bin_dir: String,
    pub lib_dir: String,
    pub gdal_data: String,
    pub proj_data: String,
}

/// `up` is the directory that holds the one of the tool, and the other directories lie below it.
pub open spec fn site_below(site: ToolSite, up: Option<Seq<char>>) -> bool {
    let root = match up {
        Some(d) => d,
        None => site.bin_dir@,
    };
    &&& parent_outcome(site.bin_dir@, up)
    &&& joined(root, "lib"@, site.lib_dir@)
    &&& joined(root, "share/gdal"@, site.gdal_data@)
    &&& joined(root, "share/proj"@, site.proj_data@)
}

/// The directories lie below the directory that holds the one of the tool, or below the directory
/// of the tool where that lies in none.
pub open spec fn site_outcome(tool_path: Seq<char>, r: Option<ToolSite>) -> bool {
    match r {
        None => parent_outcome(tool_path, None),
        Some(site) => {
            &&& parent_outcome(tool_path, Some(site.bin_dir@))
            &&& exists|up: Option<Seq<char>>| #[trigger] site_below(site, up)
        },
    }
}

/// The directories around the tool at a path.
pub fn tool_site(tool_path: &str) -> (r: Option<ToolSite>)
    ensures
        site_outcome(tool_path@, r),
{
    match path_parent(tool_path) {
        None => None,
        Some(bin_dir) => {
            let up = path_parent(bin_dir.as_str());
            let root = match &up {
                Some(d) => d.clone(),
                None => bin_dir.clone(),
            };
            let lib_dir = path_join(root.as_str(), "lib");
            let gdal_data = path_join(root.as_str(), "share/gdal");
            let proj_data = path_join(root.as_str(), "share/proj");
            let site = ToolSite { bin_dir, lib_dir, gdal_data, proj_data };
            assert(site_below(site, opt_text(up)));
            Some(site)
        },
    }
}

/// What the host tells for a start of a tool: its platform, which directories of the tool's site
/// are there, and the search paths of the environment.
#[derive(Debug, Clone)]
pub struct StartHost {
    pub windows: bool,
    pub macos: bool,
    pub lib_exists: bool,
    pub gdal_data_exists: bool,
    pub proj_data_exists: bool,
    pub dyld_library_path: Option<String>,
    pub path: Option<String>,
}

/// A variable for the environment of a child process.
#[derive(Debug, Clone)]
pub struct EnvEntry {
    pub key: String,
    pub value: String,
}

/// How a tool is started: the program, the arguments before those of the caller, and the variables
/// that are set.
#[derive(Debug, Clone)]
pub struct CommandPlan {
    pub program: String,
    pub args: Vec<String>,
    pub env: Vec<EnvEntry>,
}

/// The content of a [`CommandPlan`].
#[verifier::ext_equal]
pub ghost struct CommandView {
    pub program: Seq<char>,
    pub args: Seq<Seq<char>>,
    pub env: Seq<(Seq<char>, Seq<char>)>,
}

/// The variables as pairs of a name and a value.
pub open spec fn env_pairs(v: Seq<EnvEntry>) -> Seq<(Seq<char>, Seq<char>)> {
    v.map_values(|e: EnvEntry| (e.key@, e.value@))
}

impl View for CommandPlan {
    type V = CommandView;

    open spec fn view(&self) -> CommandView {
        CommandView {
            program: self.program@,
            args: texts(self.args@),
            env: env_pairs(self.env@),
        }
    }
}

/// The variables for a tool of a site: the libraries on macOS and the data of GDAL and PROJ, each
/// where the directory is there, and the directory of the tool in front of the search path.
pub open spec fn site_env(site: ToolSite, host: StartHost) -> Seq<(Seq<char>, Seq<char>)> {
    let none = Seq::<(Seq<char>, Seq<char>)>::empty();
    let a = if host.macos && host.lib_exists {
        none.push(
            (
                "DYLD_LIBRARY_PATH"@,
                prepended(site.lib_dir@, opt_text(host.dyld_library_path), host.windows),
            ),
        )
    } else {
        none
    };
    let b = if host.gdal_data_exists {
        a.push(("GDAL_DATA"@, site.gdal_data@))
    } else {
        a
    };
    let c = if host.proj_data_exists {
        b.push(("PROJ_LIB"@, site.proj_data@))
    } else {
        b
    };
    c.push(("PATH"@, prepended(site.bin_dir@, opt_text(host.path), host.windows)))
}

/// The site that is given, if any.
pub open spec fn given_site(site: Option<&ToolSite>) -> Option<ToolSite> {
    match site {
        Some(s) => Some(*s),
        None => None,
    }
}

/// How a tool is started: a script through the Python interpreter, anything else by itself.
pub open spec fn command_view(
    tool_path: Seq<char>,
    script: bool,
    site: Option<ToolSite>,
    host: StartHost,
) -> CommandView {
    CommandView {
        program: if script {
            if host.windows {
                "py"@
            } else {
                "python3"@
            }
        } else {
            tool_path
        },
        args: if script {
            seq![tool_path]
        } else {
            Seq::empty()
        },
        env: match site {
            Some(s) => site_env(s, host),
            None => Seq::empty(),
        },
    }
}

fn push_env(v: &mut Vec<EnvEntry>, key: &str, value: String)
    ensures
        env_pairs(final(v)@) == env_pairs(old(v)@).push((key@, value@)),
{
    let ghost before = env_pairs(v@);
    let ghost text = value@;
    v.push(EnvEntry { key: key.to_string(), value });
    assert(env_pairs(v@) =~= before.push((key@, text)));
}

/// How a tool is started, with the decision given whether it is a Python script.
pub fn command_plan(
    tool_path: &str,
    script: bool,
    site: Option<&ToolSite>,
    host: &StartHost,
) -> (r: CommandPlan)
    ensures
        r@ == command_view(
            tool_path@,
            script,
            given_site(site),
            *host,
        ),
{
    let mut args: Vec<String> = Vec::new();
    let program = if script {
        push_text(&mut args, tool_path);
        resolve_python_executable(host.windows).to_string()
    } else {
        tool_path.to_string()
    };
    let mut env: Vec<EnvEntry> = Vec::new();
    if let Some(s) = site {
        if host.macos && host.lib_exists {
            let value = prepend_env_path(
                s.lib_dir.as_str(),
                as_opt_str(&host.dyld_library_path),
                host.windows,
            );
            push_env(&mut env, "DYLD_LIBRARY_PATH", value);
        }
        if host.gdal_data_exists {
            push_env(&mut env, "GDAL_DATA", s.gdal_data.clone());
        }
        if host.proj_data_exists {
            push_env(&mut env, "PROJ_LIB", s.proj_data.clone());
        }
        let value = prepend_env_path(s.bin_dir.as_str(), as_opt_str(&host.path), host.windows);
        push_env(&mut env, "PATH", value);
    }
    CommandPlan { program, args, env }
}

/// The extension is that of a Python script, in upper or lower case.
pub open spec fn is_py(ext: Option<Seq<char>>) -> bool {
    match ext {
        Some(e) => ascii_lower(e) == "py"@,
        None => false,
    }
}

/// The answer is that for the extension of the path.
pub open spec fn script_outcome(tool_path: Seq<char>, script: bool) -> bool {
    exists|ext: Option<Seq<char>>| #[trigger]
        extension_outcome(tool_path, ext) && script == is_py(ext)
}

/// Whether the path names a Python script.
pub fn is_python_script(tool_path: &str) -> (r: bool)
    ensures
        script_outcome(tool_path@, r),
{
    let ext = extension(tool_path);
    assert(extension_outcome(tool_path@, opt_text(ext)));
    match ext {
        Some(ext) => same_text(to_ascii_lower(ext.as_str()).as_str(), "py"),
        None => false,
    }
}

/// How the tool at a path is started.
pub fn build_command(tool_path: &str, site: Option<&ToolSite>, host: &StartHost) -> (r: CommandPlan)
    ensures
        exists|script: bool|
            script_outcome(tool_path@, script) && r@ == #[trigger] command_view(
                tool_path@,
                script,
                given_site(site),
                *host,
            ),
{
    let script = is_python_script(tool_path);
    command_plan(tool_path, script, site, host)
}

// Laws.

/// The tools are looked for in this order: where the environment says, below the working directory,
/// beside the running program and in its resources, and where package managers put programs.
pub proof fn places_of_every_platform(host: HostDirs, exe_dir: Option<Seq<char>>)
    requires
        !host.windows,
    ensures
        host_slots(host, exe_dir) == (match host.gdal_bin_dir {
            Some(dir) => seq![Slot::Exact(dir@)],
            None => Seq::empty(),
        }) + (match host.current_dir {
            Some(dir) => seq![Slot::Under(dir@, "gdal/bin"@)],
            None => Seq::empty(),
        }) + (match exe_dir {
            Some(dir) => seq![
                Slot::Exact(dir),
                Slot::Under(dir, "../Resources/gdal/bin"@),
                Slot::Under(dir, "../resources/gdal/bin"@),
                Slot::Under(dir, "resources/gdal/bin"@),
            ],
            None => Seq::empty(),
        }) + seq![
            Slot::Exact("/opt/homebrew/bin"@),
            Slot::Exact("/usr/local/bin"@),
            Slot::Exact("/opt/local/bin"@),
        ],
{
}

/// On Windows the search goes on, behind the places of every platform, in those of its installers, and
/// then below the home directory of the user, where it is known.
pub proof fn places_on_windows(host: HostDirs, exe_dir: Option<Seq<char>>)
    requires
        host.windows,
    ensures
        ({
            let common = host_slots(HostDirs { windows: false, ..host }, exe_dir);
            let slots = host_slots(host, exe_dir);
            let n = common.len() as int;
            &&& slots.len() == n + 4 + (if host.user_profile is Some {
                10int
            } else {
                0
            })
            &&& slots.take(n) == common
            &&& slots[n] == Slot::Exact("C:/OSGeo4W64/bin"@)
            &&& slots[n + 1] == Slot::Exact("C:/OSGeo4W/bin"@)
            &&& slots[n + 2] == Slot::Exact("C:/Program Files/QGIS/bin"@)
            &&& slots[n + 3] == Slot::Exact("C:/Program Files/QGIS 3.34.0/bin"@)
        }),
{
    let common = host_slots(HostDirs { windows: false, ..host }, exe_dir);
    let n = common.len() as int;
    assert(host_slots(host, exe_dir).take(n) =~= common);
}

/// Below the home directory of a user on Windows, the search goes through the places of Miniconda, in
/// both spellings of its name, and those of an environment for GDAL, libraries before scripts.
pub proof fn places_of_a_user(host: HostDirs, exe_dir: Option<Seq<char>>, home: String)
    requires
        host.windows,
        host.user_profile == Some(home),
    ensures
        ({
            let slots = host_slots(host, exe_dir);
            let n = slots.len() - 10;
            &&& slots[n] == Slot::Under(home@, "miniconda3/Library/bin"@)
            &&& slots[n + 1] == Slot::Under(home@, "Miniconda3/Library/bin"@)
            &&& slots[n + 2] == Slot::Under(home@, "miniconda3/Scripts"@)
            &&& slots[n + 3] == Slot::Under(home@, "Miniconda3/Scripts"@)
            &&& slots[n + 4] == Slot::Under(home@, "miniconda3/envs/gdal-mini/Library/bin"@)
            &&& slots[n + 5] == Slot::Under(home@, "Miniconda3/envs/gdal-mini/Library/bin"@)
            &&& slots[n + 6] == Slot::Under(home@, "miniconda3/envs/gdal-mini/Scripts"@)
            &&& slots[n + 7] == Slot::Under(home@, "Miniconda3/envs/gdal-mini/Scripts"@)
            &&& slots[n + 8] == Slot::Under(
                home@,
                "AppData/Local/conda/conda/envs/gdal-mini/Library/bin"@,
            )
            &&& slots[n + 9] == Slot::Under(
                home@,
                "AppData/Local/conda/conda/envs/gdal-mini/Scripts"@,
            )
        }),
{
}

/// A tool lies in a directory under its name; on Windows also as a program, as one of the two kinds of
/// batch files, or as a script, in this order.
pub proof fn names_of_a_tool(dir: Seq<char>, tool: Seq<char>)
    ensures
        tool_slots(dir, tool, false) == seq![Slot::Under(dir, tool)],
        tool_slots(dir, tool, true) == seq![
            Slot::Under(dir, tool),
            Slot::Under(dir, tool + seq!['.', 'e', 'x', 'e']),
            Slot::Under(dir, tool + seq!['.', 'b', 'a', 't']),
            Slot::Under(dir, tool + seq!['.', 'c', 'm', 'd']),
            Slot::Under(dir, tool + seq!['.', 'p', 'y']),
        ],
{
    reveal_strlit(".exe");
    reveal_strlit(".bat");
    reveal_strlit(".cmd");
    reveal_strlit(".py");
    assert(".exe"@ =~= seq!['.', 'e', 'x', 'e']);
    assert(".bat"@ =~= seq!['.', 'b', 'a', 't']);
    assert(".cmd"@ =~= seq!['.', 'c', 'm', 'd']);
    assert(".py"@ =~= seq!['.', 'p', 'y']);
}

/// Of several paths the first counts at which something is; where nothing is at any, there is none.
pub proof fn first_existing_path_counts(probes: Seq<PathProbe>)
    ensures
        first_existing(probes) is None <==> forall|i: int|
            0 <= i < probes.len() ==> !(#[trigger] probes[i]).exists,
        first_existing(probes) matches Some(p) ==> exists|i: int|
            0 <= i < probes.len() && (#[trigger] probes[i]).exists && probes[i].path@ == p && (
            forall|j: int| 0 <= j < i ==> !(#[trigger] probes[j]).exists),
    decreases probes.len(),
{
    if probes.len() > 0 && !probes[0].exists {
        let rest = probes.drop_first();
        first_existing_path_counts(rest);
        if first_existing(rest) is Some {
            let i = choose|i: int|
                0 <= i < rest.len() && (#[trigger] rest[i]).exists && rest[i].path@
                    == first_existing(rest)->Some_0 && (forall|j: int|
                    0 <= j < i ==> !(#[trigger] rest[j]).exists);
            assert(probes[i + 1] == rest[i]);
            assert forall|j: int| 0 <= j < i + 1 implies !(#[trigger] probes[j]).exists by {
                if j > 0 {
                    assert(probes[j] == rest[j - 1]);
                }
            }
        } else {
            assert forall|i: int| 0 <= i < probes.len() implies !(#[trigger] probes[i]).exists by {
                if i > 0 {
                    assert(probes[i] == rest[i - 1]);
                }
            }
        }
    } else if probes.len() > 0 {
        assert(probes[0].exists && probes[0].path@ == first_existing(probes)->Some_0);
    }
}

/// A directory is of use exactly where each of `gdalinfo`, `gdalwarp` and `gdal_translate` is at one
/// of its paths there.
pub proof fn useful_directories_have_three_tools(probe: DirProbe)
    ensures
        has_required(probe) <==> {
            &&& exists|i: int| 0 <= i < probe.gdalinfo@.len() && (#[trigger] probe.gdalinfo@[i]).exists
            &&& exists|i: int| 0 <= i < probe.gdalwarp@.len() && (#[trigger] probe.gdalwarp@[i]).exists
            &&& exists|i: int|
                0 <= i < probe.gdal_translate@.len() && (#[trigger] probe.gdal_translate@[i]).exists
        },
{
    first_existing_path_counts(probe.gdalinfo@);
    first_existing_path_counts(probe.gdalwarp@);
    first_existing_path_counts(probe.gdal_translate@);
}

/// A tool that is looked for is the first that is there, in the first directory that has it.
pub proof fn first_tool_that_was_found_counts(dirs: Seq<Vec<PathProbe>>)
    ensures
        first_found(dirs) is None <==> forall|i: int|
            0 <= i < dirs.len() ==> first_existing((#[trigger] dirs[i])@) is None,
        first_found(dirs) matches Some(p) ==> exists|i: int|
            0 <= i < dirs.len() && first_existing((#[trigger] dirs[i])@) == Some(p) && (forall|j: int|
                0 <= j < i ==> first_existing((#[trigger] dirs[j])@) is None),
    decreases dirs.len(),
{
    if dirs.len() > 0 && first_existing(dirs[0]@) is None {
        let rest = dirs.drop_first();
        first_tool_that_was_found_counts(rest);
        if first_found(rest) is Some {
            let i = choose|i: int|
                0 <= i < rest.len() && first_existing((#[trigger] rest[i])@) == first_found(rest)
                    && (forall|j: int|
                    0 <= j < i ==> first_existing((#[trigger] rest[j])@) is None);
            assert(dirs[i + 1] == rest[i]);
            assert forall|j: int| 0 <= j < i + 1 implies first_existing(
                (#[trigger] dirs[j])@,
            ) is None by {
                if j > 0 {
                    assert(dirs[j] == rest[j - 1]);
                }
            }
        } else {
            assert forall|i: int| 0 <= i < dirs.len() implies first_existing(
                (#[trigger] dirs[i])@,
            ) is None by {
                if i > 0 {
                    assert(dirs[i] == rest[i - 1]);
                }
            }
        }
    } else if dirs.len() > 0 {
        assert(first_existing(dirs[0]@) == first_found(dirs));
    }
}

/// A new directory goes before all others of a search path, which are kept behind the separator of
/// the platform; a search path that is blank or missing becomes the directory alone.
pub proof fn new_directory_goes_first(new_path: Seq<char>, before: Seq<char>, windows: bool)
    ensures
        prepended(new_path, None, windows) == new_path,
        trimmed(before).len() == 0 ==> prepended(new_path, Some(before), windows) == new_path,
        trimmed(before).len() > 0 ==> prepended(new_path, Some(before), windows) == new_path + seq![
            if windows {
                ';'
            } else {
                ':'
            },
        ] + before,
{
    reveal_strlit(";");
    reveal_strlit(":");
    assert(";"@ =~= seq![';']);
    assert(":"@ =~= seq![':']);
}

/// A tool of a site always finds itself first on the search path. The data of GDAL and of PROJ are
/// told exactly where they are there, and the libraries only on macOS.
pub proof fn environment_of_a_tool(site: ToolSite, host: StartHost)
    ensures
        site_env(site, host).contains(
            ("PATH"@, prepended(site.bin_dir@, opt_text(host.path), host.windows)),
        ),
        host.gdal_data_exists <==> site_env(site, host).contains(("GDAL_DATA"@, site.gdal_data@)),
        host.proj_data_exists <==> site_env(site, host).contains(("PROJ_LIB"@, site.proj_data@)),
        host.macos && host.lib_exists ==> site_env(site, host).contains(
            (
                "DYLD_LIBRARY_PATH"@,
                prepended(site.lib_dir@, opt_text(host.dyld_library_path), host.windows),
            ),
        ),
        site_env(site, host).len() == 1 + (if host.macos && host.lib_exists {
            1int
        } else {
            0
        }) + (if host.gdal_data_exists {
            1int
        } else {
            0
        }) + (if host.proj_data_exists {
            1int
        } else {
            0
        }),
{
    reveal_strlit("PATH");
    reveal_strlit("GDAL_DATA");
    reveal_strlit("PROJ_LIB");
    reveal_strlit("DYLD_LIBRARY_PATH");
    assert("PATH"@.len() == 4 && "GDAL_DATA"@.len() == 9 && "PROJ_LIB"@.len() == 8
        && "DYLD_LIBRARY_PATH"@.len() == 17);
    let env = site_env(site, host);
    let n = env.len() as int;
    let lib = if host.macos && host.lib_exists {
        1int
    } else {
        0
    };
    let data = if host.gdal_data_exists {
        1int
    } else {
        0
    };
    assert(env[n - 1].0 == "PATH"@);
    if lib == 1 {
        assert(env[0].0 == "DYLD_LIBRARY_PATH"@);
    }
    if data == 1 {
        assert(env[lib] == ("GDAL_DATA"@, site.gdal_data@));
    }
    if host.proj_data_exists {
        assert(env[lib + data] == ("PROJ_LIB"@, site.proj_data@));
    }
    assert forall|i: int| 0 <= i < n && !host.gdal_data_exists implies (#[trigger] env[i]).0
        != "GDAL_DATA"@ by {}
    assert forall|i: int| 0 <= i < n && !host.proj_data_exists implies (#[trigger] env[i]).0
        != "PROJ_LIB"@ by {}
}

/// A script is started through the interpreter of the platform, with its path as the first argument;
/// any other tool by itself. Without a site nothing is told to it.
pub proof fn scripts_are_started_through_python(
    tool_path: Seq<char>,
    site: Option<ToolSite>,
    host: StartHost,
)
    ensures
        ({
            let script = command_view(tool_path, true, site, host);
            let program = command_view(tool_path, false, site, host);
            &&& script.program == (if host.windows {
                "py"@
            } else {
                "python3"@
            })
            &&& script.args == seq![tool_path]
            &&& program.program == tool_path
            &&& program.args.len() == 0
            &&& script.env == program.env
            &&& site is None ==> program.env.len() == 0
            &&& site matches Some(s) ==> program.env == site_env(s, host)
        }),
{
}

/// A script is known by its extension, `py` in capital or small letters, and by nothing else.
pub proof fn scripts_are_known_by_their_extension(e: Seq<char>)
    ensures
        is_py(Some(e)) <==> e.len() == 2 && (e[0] == 'p' || e[0] == 'P') && (e[1] == 'y' || e[1]
            == 'Y'),
        !is_py(None),
{
    reveal_strlit("py");
    let low = ascii_lower(e);
    assert(low.len() == e.len());
    if is_py(Some(e)) {
        assert(low.len() == 2);
        assert(low[0] == "py"@[0] && low[1] == "py"@[1]);
        assert(low[0] == lower_char(e[0]) && low[1] == lower_char(e[1]));
        case_is_that_of_ascii_letters(e[0]);
        case_is_that_of_ascii_letters(e[1]);
        if 'A' <= e[0] <= 'Z' {
            assert(upper_char('p') == 'P');
        }
        if 'A' <= e[1] <= 'Z' {
            assert(upper_char('y') == 'Y');
        }
    }
    if e.len() == 2 && (e[0] == 'p' || e[0] == 'P') && (e[1] == 'y' || e[1] == 'Y') {
        assert(lower_char('P') == 'p' && lower_char('Y') == 'y');
        assert(low =~= "py"@);
    }
}

/// Libraries and data of a tool lie beside the directory of the tool, in `lib`, `share/gdal` and
/// `share/proj`.
pub proof fn data_lies_beside_the_tools(site: ToolSite, up: Seq<char>)
    requires
        site_below(site, Some(up)),
    ensures
        parent_outcome(site.bin_dir@, Some(up)),
        joined(up, "lib"@, site.lib_dir@),
        joined(up, "share/gdal"@, site.gdal_data@),
        joined(up, "share/proj"@, site.proj_data@),
{
}

/// The path of a tool: in the given directory wherever one is given; as it is written where that is a
/// path; else the first that was found, or its bare name where none was.
pub proof fn tools_are_taken_from_the_given_directory(
    tool: &str,
    gdal_bin_dir: Option<&str>,
    separator: char,
    found: Vec<Vec<PathProbe>>,
    r: String,
)
    requires
        call_ensures(resolve_tool_path, (tool, gdal_bin_dir, separator, &found), r),
    ensures
        gdal_bin_dir matches Some(dir) ==> joined(dir@, tool@, r@),
        gdal_bin_dir is None && tool@.contains(separator) ==> r@ == tool@,
        gdal_bin_dir is None && !tool@.contains(separator) && (forall|i: int|
            0 <= i < found@.len() ==> first_existing((#[trigger] found@[i])@) is None) ==> r@
            == tool@,
        gdal_bin_dir is None && !tool@.contains(separator) ==> r@ == tool@ || exists|i: int|
            0 <= i < found@.len() && first_existing((#[trigger] found@[i])@) == Some(r@) && (forall|
                j: int,
            |
                0 <= j < i ==> first_existing((#[trigger] found@[j])@) is None),
        is_searched(tool@, opt_str(gdal_bin_dir), separator) <==> gdal_bin_dir is None
            && !tool@.contains(separator),
{
    first_tool_that_was_found_counts(found@);
}

/// A directory is searched at the place where it stands first: one that has stood before is passed
/// over, and one that has not goes behind the others.
pub proof fn directories_keep_their_first_place(all: Seq<Seq<char>>, dir: Seq<char>)
    ensures
        all.contains(dir) ==> unique(all.push(dir)) == unique(all),
        !all.contains(dir) ==> unique(all.push(dir)) == unique(all).push(dir),
        unique(Seq::<Seq<char>>::empty()).len() == 0,
{
    unique_has_all(all);
    assert(all.push(dir).drop_last() =~= all);
}

/// A tool whose path is written with the extension of a script is started as one, and one with another
/// extension is not.
pub proof fn scripts_are_known_by_their_path(front: Seq<char>, word: Seq<char>, script: bool)
    requires
        script_outcome(front + seq!['.'] + word, script),
        is_regular(front + seq!['.'] + word),
        ends_in_name(front + seq!['.'] + word),
        front.len() > 0,
        !is_separator(front.last()),
        !word.contains('.'),
        !has_separator(word),
    ensures
        script <==> word.len() == 2 && (word[0] == 'p' || word[0] == 'P') && (word[1] == 'y' || word[1]
            == 'Y'),
{
    let ext = choose|ext: Option<Seq<char>>| #[trigger]
        extension_outcome(front + seq!['.'] + word, ext) && script == is_py(ext);
    written_extension_is_read(front, word, ext);
    scripts_are_known_by_their_extension(word);
}

/// A tool that lies in no directory has no site; where its directory lies in none, libraries and data
/// are looked for below that directory itself.
pub proof fn sites_without_a_root(site: ToolSite, tool_path: Seq<char>)
    ensures
        site_outcome(tool_path, None) <==> parent_outcome(tool_path, None),
        site_outcome(tool_path, Some(site)) ==> parent_outcome(tool_path, Some(site.bin_dir@)),
        site_below(site, None) ==> joined(site.bin_dir@, "lib"@, site.lib_dir@) && joined(
            site.bin_dir@,
            "share/gdal"@,
            site.gdal_data@,
        ) && joined(site.bin_dir@, "share/proj"@, site.proj_data@),
{
}

} // verus!
