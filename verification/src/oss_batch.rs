//! An upload batch: which files belong to it, in which order they go, and what comes of them.

use crate::oss_upload::bare_prefix;
use crate::oss_upload::build_object_key;
use crate::oss_upload::build_public_base_url;
use crate::oss_upload::credentials_of_the_request_go_first;
use crate::oss_upload::normalize_relative_key;
use crate::oss_upload::object_key;
use crate::oss_upload::public_base;
use crate::oss_upload::relative_key;
use crate::oss_upload::resolved;
use crate::oss_upload::resolve_config;
use crate::oss_upload::text_result;
use crate::oss_upload::OssEnvironment;
use crate::oss_upload::OssResolvedConfig;
use crate::oss_upload::OssUploadConfig;
use crate::oss_upload::ResolvedView;
use crate::paths::ends_in_name;
use crate::paths::extension;
use crate::paths::extension_outcome;
use crate::paths::forward;
use crate::paths::has_drive;
use crate::paths::has_separator;
use crate::paths::is_regular;
use crate::paths::is_separator;
use crate::paths::path_components;
use crate::paths::path_strip_prefix;
use crate::paths::portable;
use crate::paths::portable_components_are_known;
use crate::paths::portable_paths_are_known;
use crate::paths::same_path;
use crate::paths::same_path_outcome;
use crate::paths::slash_join;
use crate::paths::strip_outcome;
use crate::paths::tidy;
use crate::paths::tidy_path_is_relative;
use crate::paths::written_extension_is_read;
use crate::text::ascii_lower;
use crate::text::as_opt_str;
use crate::text::concat2;
use crate::text::ends_with;
use crate::text::finishes_with;
use crate::text::lemma_split_concat;
use crate::text::lemma_split_single;
use crate::text::opt_str;
use crate::text::opt_text;
use crate::text::push_text;
use crate::text::same_text;
use crate::text::split;
use crate::text::split_by;
use crate::text::texts;
use crate::text::to_ascii_lower;
use crate::text::trimmed;
use crate::text::CharClass;
use vstd::prelude::*;
use vstd::utf8::encode_utf8;
use vstd::utf8::encode_utf8_decode_utf8;

verus! {

/// How many files are sent at a time: one for each processor, but 2 at least and 8 at most, and 4
/// where the number of processors is not known.
pub fn upload_worker_count(processors: Option<usize>) -> (r: usize)
    ensures
        r == match processors {
            Some(n) => if n < 2 {
                2usize
            } else if n > 8 {
                8usize
            } else {
                n
            },
            None => 4usize,
        },
{
    match processors {
        Some(n) => if n < 2 {
            2
        } else if n > 8 {
            8
        } else {
            n
        },
        None => 4,
    }
}

// Which files.

/// Files with this extension belong to a batch: all but pages, maps of other programs, texts and
/// logs.
pub open spec fn is_uploaded(ext: Option<Seq<char>>) -> bool {
    match ext {
        Some(e) => {
            let e = ascii_lower(e);
            !(e == "html"@ || e == "htm"@ || e == "kml"@ || e == "txt"@ || e == "log"@)
        },
        None => true,
    }
}

/// Whether files with this extension belong to a batch.
pub fn should_upload_extension(ext: Option<&str>) -> (r: bool)
    ensures
        r == is_uploaded(opt_str(ext)),
{
    match ext {
        Some(raw) => {
            let lower = to_ascii_lower(raw);
            let e = lower.as_str();
            !(same_text(e, "html") || same_text(e, "htm") || same_text(e, "kml") || same_text(
                e,
                "txt",
            ) || same_text(e, "log"))
        },
        None => true,
    }
}

/// The answer is that for the extension of the path.
pub open spec fn upload_outcome(path: Seq<char>, uploaded: bool) -> bool {
    exists|ext: Option<Seq<char>>| #[trigger]
        extension_outcome(path, ext) && uploaded == is_uploaded(ext)
}

/// Whether the file at a path belongs to a batch.
pub fn should_upload_file(path: &str) -> (r: bool)
    ensures
        upload_outcome(path@, r),
{
    let ext = extension(path);
    assert(extension_outcome(path@, opt_text(ext)));
    should_upload_extension(as_opt_str(&ext))
}

/// The first byte sequence comes before the second in the order of dictionaries.
pub open spec fn bytes_before(a: Seq<u8>, b: Seq<u8>) -> bool
    decreases a.len(),
{
    if b.len() == 0 {
        false
    } else if a.len() == 0 {
        true
    } else if a[0] != b[0] {
        a[0] < b[0]
    } else {
        bytes_before(a.drop_first(), b.drop_first())
    }
}

/// The first text comes before the second: their bytes do.
pub open spec fn text_before(a: Seq<char>, b: Seq<char>) -> bool {
    bytes_before(encode_utf8(a), encode_utf8(b))
}

/// No text comes before one that stands in front of it.
pub open spec fn in_order(list: Seq<Seq<char>>) -> bool {
    forall|i: int, j: int|
        #![trigger list[i], list[j]]
        0 <= i < j < list.len() ==> !text_before(list[j], list[i])
}

/// `<[String]>::sort`: the same texts, ordered by their bytes.
#[verifier::external_body]
pub(crate) fn sort_texts(v: &mut Vec<String>)
    ensures
        in_order(texts(final(v)@)),
        texts(final(v)@).to_multiset() == texts(old(v)@).to_multiset(),
{
    v.sort();
}

/// The answer to whether a path is among those of a list.
pub open spec fn among(path: Seq<char>, list: Seq<Seq<char>>, found: bool) -> bool {
    if found {
        exists|j: int| 0 <= j < list.len() && same_path_outcome(path, #[trigger] list[j], true)
    } else {
        forall|j: int|
            0 <= j < list.len() ==> same_path_outcome(path, #[trigger] list[j], false)
    }
}

/// Whether a path is among those of a list.
pub fn is_among(path: &str, list: &Vec<String>) -> (r: bool)
    ensures
        among(path@, texts(list@), r),
{
    let ghost all = texts(list@);
    let mut i: usize = 0;
    while i < list.len()
        invariant
            i <= list@.len(),
            all == texts(list@),
            forall|j: int| 0 <= j < i ==> same_path_outcome(path@, #[trigger] all[j], false),
        decreases list@.len() - i,
    {
        if same_path(path, list[i].as_str()) {
            assert(same_path_outcome(path@, all[i as int], true));
            return true;
        }
        i += 1;
    }
    false
}

/// The answer to whether a file is sent: it is no file between the stages of a job, and one that
/// belongs to a batch.
pub open spec fn sent_outcome(
    path: Seq<char>,
    intermediates: Seq<Seq<char>>,
    sent: bool,
) -> bool {
    if sent {
        among(path, intermediates, false) && upload_outcome(path, true)
    } else {
        among(path, intermediates, true) || upload_outcome(path, false)
    }
}

/// The marks tell of each path whether its file is sent.
pub open spec fn marks_fit(
    paths: Seq<Seq<char>>,
    intermediates: Seq<Seq<char>>,
    marks: Seq<bool>,
) -> bool {
    &&& marks.len() == paths.len()
    &&& forall|i: int|
        0 <= i < paths.len() ==> sent_outcome(#[trigger] paths[i], intermediates, marks[i])
}

/// The paths that are marked.
pub open spec fn marked(paths: Seq<Seq<char>>, marks: Seq<bool>) -> Seq<Seq<char>>
    decreases paths.len(),
{
    if paths.len() == 0 || marks.len() != paths.len() {
        Seq::empty()
    } else {
        let before = marked(paths.drop_last(), marks.drop_last());
        if marks.last() {
            before.push(paths.last())
        } else {
            before
        }
    }
}

/// The files of a batch are those of the output directory that are sent, in order.
pub open spec fn collected(
    walked: Seq<Seq<char>>,
    intermediates: Seq<Seq<char>>,
    files: Seq<Seq<char>>,
) -> bool {
    exists|marks: Seq<bool>|
        marks_fit(walked, intermediates, marks) && in_order(files) && files.to_multiset()
            == #[trigger] marked(walked, marks).to_multiset()
}

/// The files of a batch out of the files in the output directory. The files between the stages of
/// the job may still lie there, and are left out.
pub fn collect_upload_files(walked: &Vec<String>, intermediates: &Vec<String>) -> (r: Vec<String>)
    ensures
        collected(texts(walked@), texts(intermediates@), texts(r@)),
{
    let mut files: Vec<String> = Vec::new();
    let ghost all = texts(walked@);
    let ghost between = texts(intermediates@);
    let ghost mut marks: Seq<bool> = Seq::empty();
    let mut i: usize = 0;
    assert(all.take(0) == Seq::<Seq<char>>::empty());
    while i < walked.len()
        invariant
            i <= walked.len(),
            all == texts(walked@),
            between == texts(intermediates@),
            marks_fit(all.take(i as int), between, marks),
            texts(files@) == marked(all.take(i as int), marks),
        decreases walked.len() - i,
    {
        let path = walked[i].as_str();
        let yes = !is_among(path, intermediates) && should_upload_file(path);
        proof {
            assert(sent_outcome(path@, between, yes));
            assert(all.take(i + 1).drop_last() == all.take(i as int));
            assert(all.take(i + 1).last() == path@);
            assert(marks.push(yes).drop_last() == marks);
            let longer = all.take(i + 1);
            assert forall|j: int| 0 <= j < longer.len() implies sent_outcome(
                #[trigger] longer[j],
                between,
                marks.push(yes)[j],
            ) by {
                if j < i {
                    assert(longer[j] == all.take(i as int)[j]);
                }
            }
            marks = marks.push(yes);
        }
        if yes {
            push_text(&mut files, path);
        }
        i += 1;
    }
    assert(all.take(all.len() as int) == all);
    sort_texts(&mut files);
    files
}

// Grouping.

/// A file of a batch: where it lies, and its key inside the batch.
#[derive(Debug, Clone)]
pub struct UploadItem {
    pub file_path: String,
    pub rel_key: String,
}

/// The content of an [`UploadItem`].
pub ghost struct ItemView {
    pub file_path: Seq<char>,
    pub rel_key: Seq<char>,
}

impl View for UploadItem {
    type V = ItemView;

    open spec fn view(&self) -> ItemView {
        ItemView { file_path: self.file_path@, rel_key: self.rel_key@ }
    }
}

/// The contents of a list of items.
pub open spec fn items(v: Seq<UploadItem>) -> Seq<ItemView> {
    v.map_values(|i: UploadItem| i@)
}

/// The key of a file inside the batch of an output directory: that of its path below the
/// directory, or of the whole path where it lies elsewhere.
pub open spec fn key_outcome(output_dir: Seq<char>, file: Seq<char>, key: Seq<char>) -> bool {
    exists|below: Option<Seq<char>>|
        #[trigger] strip_outcome(file, output_dir, below) && key == relative_key(
            match below {
                Some(rest) => rest,
                None => file,
            },
        )
}

/// The file with its key inside the batch of an output directory.
pub fn upload_item(output_dir: &str, file: &str) -> (r: UploadItem)
    ensures
        r@.file_path == file@,
        key_outcome(output_dir@, file@, r@.rel_key),
{
    let below = path_strip_prefix(file, output_dir);
    let rel_key = match &below {
        Some(rest) => normalize_relative_key(rest.as_str()),
        None => normalize_relative_key(file),
    };
    assert(strip_outcome(file@, output_dir@, opt_text(below)));
    UploadItem { file_path: file.to_string(), rel_key }
}

/// A file that lies below the output directory has its path below the directory as its key, and its
/// object the key of prefix, batch and that path.
pub proof fn key_is_the_path_below_the_directory(
    output_dir: Seq<char>,
    rest: Seq<char>,
    key: Seq<char>,
    prefix: Seq<char>,
    run_id: Seq<char>,
)
    requires
        key_outcome(output_dir, slash_join(output_dir, rest), key),
        output_dir.len() > 0,
        output_dir.last() != '\\',
        !(has_drive(output_dir) && output_dir.len() == 2),
        is_regular(output_dir),
        is_regular(slash_join(output_dir, rest)),
        tidy(rest),
        !rest.contains('\\'),
    ensures
        key == rest,
        object_key(prefix, run_id, key) == bare_prefix(prefix) + "/"@ + trimmed(run_id) + "/"@ + rest,
{
    let file = slash_join(output_dir, rest);
    let below = choose|below: Option<Seq<char>>|
        #[trigger] strip_outcome(file, output_dir, below) && key == relative_key(
            match below {
                Some(r) => r,
                None => file,
            },
        );
    assert(forward(rest) =~= rest) by {
        assert forall|i: int| 0 <= i < rest.len() implies rest[i] != '\\' by {
            if rest[i] == '\\' {
                assert(rest.contains('\\'));
            }
        }
    }
    assert(below == Some(rest));
    tidy_path_is_relative(rest);
}

/// The zoom level of a key: its first segment, or a common name for keys without one.
pub open spec fn zoom_of(rel_key: Seq<char>) -> Seq<char> {
    let first = split_by(rel_key, CharClass::Exactly('/'))[0];
    if first.len() > 0 {
        first
    } else {
        "_misc"@
    }
}

/// The zoom level of a key.
pub fn zoom_level(rel_key: &str) -> (r: String)
    ensures
        r@ == zoom_of(rel_key@),
{
    let parts = split(rel_key, CharClass::Exactly('/'));
    let first = parts[0].as_str();
    assert(texts(parts@)[0] == first@);
    if first.is_empty() {
        "_misc".to_string()
    } else {
        first.to_string()
    }
}

/// The files of one zoom level.
#[derive(Debug, Clone)]
pub struct ZoomGroup {
    pub z: String,
    pub files: Vec<UploadItem>,
}

/// The items of one zoom level, in their order.
pub open spec fn of_zoom(all: Seq<ItemView>, z: Seq<char>) -> Seq<ItemView> {
    all.filter(|i: ItemView| zoom_of(i.rel_key) == z)
}

/// One of the groups is that of a zoom level.
pub open spec fn has_level(groups: Seq<ZoomGroup>, z: Seq<char>) -> bool {
    exists|g: int| 0 <= g < groups.len() && #[trigger] groups[g].z@ == z
}

/// The groups are those of the items by zoom level: the levels differ and stand in the order of
/// their texts; each group holds the items of its level in their order; no level is missing or
/// without an item.
pub open spec fn grouped(all: Seq<ItemView>, groups: Seq<ZoomGroup>) -> bool {
    &&& forall|i: int, j: int|
        #![trigger groups[i], groups[j]]
        0 <= i < j < groups.len() ==> text_before(groups[i].z@, groups[j].z@)
    &&& forall|g: int|
        0 <= g < groups.len() ==> items(#[trigger] groups[g].files@) == of_zoom(all, groups[g].z@)
    &&& forall|g: int| 0 <= g < groups.len() ==> #[trigger] groups[g].files@.len() > 0
    &&& forall|i: int|
        0 <= i < all.len() ==> has_level(groups, zoom_of(#[trigger] all[i].rel_key))
}

/// Where a text stands to another in the order of texts.
enum Place {
    Before,
    Same,
    After,
}

proof fn lemma_before_transitive(a: Seq<u8>, b: Seq<u8>, c: Seq<u8>)
    requires
        bytes_before(a, b),
        bytes_before(b, c),
    ensures
        bytes_before(a, c),
    decreases a.len(),
{
    if a.len() > 0 && a[0] == b[0] && b[0] == c[0] {
        lemma_before_transitive(a.drop_first(), b.drop_first(), c.drop_first());
    }
}

proof fn lemma_before_irreflexive(a: Seq<u8>)
    ensures
        !bytes_before(a, a),
    decreases a.len(),
{
    if a.len() > 0 {
        lemma_before_irreflexive(a.drop_first());
    }
}

fn place_of(a: &str, b: &str) -> (r: Place)
    ensures
        match r {
            Place::Before => text_before(a@, b@),
            Place::Same => a@ == b@,
            Place::After => text_before(b@, a@),
        },
{
    let x = a.as_bytes();
    let y = b.as_bytes();
    let mut i: usize = 0;
    assert(x@.skip(0) == x@);
    assert(y@.skip(0) == y@);
    while i < x.len() && i < y.len()
        invariant
            i <= x@.len(),
            i <= y@.len(),
            x@ == encode_utf8(a@),
            y@ == encode_utf8(b@),
            x@.take(i as int) == y@.take(i as int),
            bytes_before(x@, y@) == bytes_before(x@.skip(i as int), y@.skip(i as int)),
            bytes_before(y@, x@) == bytes_before(y@.skip(i as int), x@.skip(i as int)),
        decreases x@.len() - i,
    {
        assert(x@.skip(i as int)[0] == x@[i as int]);
        assert(y@.skip(i as int)[0] == y@[i as int]);
        assert(x@.skip(i as int).drop_first() == x@.skip(i + 1));
        assert(y@.skip(i as int).drop_first() == y@.skip(i + 1));
        if x[i] < y[i] {
            return Place::Before;
        }
        if y[i] < x[i] {
            return Place::After;
        }
        assert(x@.take(i + 1) == x@.take(i as int).push(x@[i as int]));
        assert(y@.take(i + 1) == y@.take(i as int).push(y@[i as int]));
        i += 1;
    }
    if i < y.len() {
        Place::Before
    } else if i < x.len() {
        Place::After
    } else {
        assert(x@.take(i as int) == x@ && y@.take(i as int) == y@);
        proof {
            encode_utf8_decode_utf8(a@);
            encode_utf8_decode_utf8(b@);
        }
        Place::Same
    }
}

/// The levels of the groups before `p` come before `z`, those from `p` on do not.
spec fn splits_at(groups: Seq<ZoomGroup>, z: Seq<char>, p: int) -> bool {
    &&& 0 <= p <= groups.len()
    &&& forall|g: int| 0 <= g < p ==> text_before(#[trigger] groups[g].z@, z)
    &&& p < groups.len() ==> groups[p].z@ == z || text_before(z, groups[p].z@)
}

fn find_group(groups: &Vec<ZoomGroup>, z: &str) -> (r: (usize, bool))
    ensures
        splits_at(groups@, z@, r.0 as int),
        r.1 == (r.0 < groups@.len() && groups@[r.0 as int].z@ == z@),
{
    let mut p: usize = 0;
    while p < groups.len()
        invariant
            p <= groups@.len(),
            forall|g: int| 0 <= g < p ==> text_before(#[trigger] groups@[g].z@, z@),
        decreases groups@.len() - p,
    {
        match place_of(groups[p].z.as_str(), z) {
            Place::Before => {
                p += 1;
            },
            Place::Same => {
                return (p, true);
            },
            Place::After => {
                proof {
                    if groups@[p as int].z@ == z@ {
                        lemma_before_irreflexive(encode_utf8(z@));
                    }
                }
                return (p, false);
            },
        }
    }
    (p, false)
}

proof fn lemma_of_zoom_push(all: Seq<ItemView>, item: ItemView, z: Seq<char>)
    ensures
        of_zoom(all.push(item), z) == if zoom_of(item.rel_key) == z {
            of_zoom(all, z).push(item)
        } else {
            of_zoom(all, z)
        },
{
    all.lemma_filter_push(item, |i: ItemView| zoom_of(i.rel_key) == z);
    reveal(Seq::filter);
    assert(all.push(item).drop_last() == all);
}

proof fn lemma_no_item(all: Seq<ItemView>, z: Seq<char>)
    requires
        forall|i: int| 0 <= i < all.len() ==> zoom_of(#[trigger] all[i].rel_key) != z,
    ensures
        of_zoom(all, z) == Seq::<ItemView>::empty(),
    decreases all.len(),
{
    reveal(Seq::filter);
    if all.len() > 0 {
        assert(zoom_of(all[all.len() - 1].rel_key) != z);
        assert forall|i: int| 0 <= i < all.len() - 1 implies zoom_of(
            #[trigger] all.drop_last()[i].rel_key,
        ) != z by {
            assert(all.drop_last()[i] == all[i]);
        }
        lemma_no_item(all.drop_last(), z);
    }
}

/// The levels of the groups differ and stand in the order of their texts.
spec fn levels_ordered(groups: Seq<ZoomGroup>) -> bool {
    forall|i: int, j: int|
        #![trigger groups[i], groups[j]]
        0 <= i < j < groups.len() ==> text_before(groups[i].z@, groups[j].z@)
}

proof fn lemma_levels_differ(groups: Seq<ZoomGroup>, i: int, j: int)
    requires
        levels_ordered(groups),
        0 <= i < groups.len(),
        0 <= j < groups.len(),
        i != j,
    ensures
        groups[i].z@ != groups[j].z@,
{
    lemma_before_irreflexive(encode_utf8(groups[i].z@));
    if i < j {
        assert(text_before(groups[i].z@, groups[j].z@));
    } else {
        assert(text_before(groups[j].z@, groups[i].z@));
    }
}

proof fn lemma_item_joins_group(
    all: Seq<ItemView>,
    item: ItemView,
    before: Seq<ZoomGroup>,
    after: Seq<ZoomGroup>,
    p: int,
)
    requires
        grouped(all, before),
        0 <= p < before.len(),
        before[p].z@ == zoom_of(item.rel_key),
        after.len() == before.len(),
        forall|g: int| 0 <= g < before.len() && g != p ==> after[g] == before[g],
        after[p].z == before[p].z,
        items(after[p].files@) == items(before[p].files@).push(item),
        after[p].files@.len() > 0,
    ensures
        grouped(all.push(item), after),
{
    let more = all.push(item);
    assert(levels_ordered(before));
    assert forall|i: int, j: int|
        #![trigger after[i], after[j]]
        0 <= i < j < after.len() implies text_before(after[i].z@, after[j].z@) by {
        assert(text_before(before[i].z@, before[j].z@));
    }
    assert forall|g: int| 0 <= g < after.len() implies items(#[trigger] after[g].files@) == of_zoom(
        more,
        after[g].z@,
    ) by {
        assert(items(before[g].files@) == of_zoom(all, before[g].z@));
        lemma_of_zoom_push(all, item, before[g].z@);
        if g != p {
            lemma_levels_differ(before, g, p);
        }
    }
    assert forall|g: int| 0 <= g < after.len() implies #[trigger] after[g].files@.len() > 0 by {
        assert(before[g].files@.len() > 0);
    }
    assert forall|i: int| 0 <= i < more.len() implies has_level(
        after,
        zoom_of(#[trigger] more[i].rel_key),
    ) by {
        if i < all.len() {
            assert(has_level(before, zoom_of(all[i].rel_key)));
            let g = choose|g: int|
                0 <= g < before.len() && #[trigger] before[g].z@ == zoom_of(all[i].rel_key);
            assert(after[g].z@ == zoom_of(more[i].rel_key));
        } else {
            assert(after[p].z@ == zoom_of(item.rel_key));
        }
    }
}

proof fn lemma_new_level(before: Seq<ZoomGroup>, z: Seq<char>, p: int, g: int)
    requires
        levels_ordered(before),
        splits_at(before, z, p),
        p < before.len() ==> before[p].z@ != z,
        0 <= g < before.len(),
    ensures
        g < p ==> text_before(before[g].z@, z),
        g >= p ==> text_before(z, before[g].z@),
        before[g].z@ != z,
{
    lemma_before_irreflexive(encode_utf8(z));
    if g > p {
        assert(text_before(before[p].z@, before[g].z@));
        lemma_before_transitive(
            encode_utf8(z),
            encode_utf8(before[p].z@),
            encode_utf8(before[g].z@),
        );
    }
}

proof fn lemma_order_with_new_level(before: Seq<ZoomGroup>, group: ZoomGroup, p: int)
    requires
        levels_ordered(before),
        splits_at(before, group.z@, p),
        p < before.len() ==> before[p].z@ != group.z@,
    ensures
        levels_ordered(before.insert(p, group)),
{
    let after = before.insert(p, group);
    assert forall|i: int, j: int|
        #![trigger after[i], after[j]]
        0 <= i < j < after.len() implies text_before(after[i].z@, after[j].z@) by {
        let a = if i < p {
            i
        } else {
            i - 1
        };
        let b = if j < p {
            j
        } else {
            j - 1
        };
        if i == p {
            lemma_new_level(before, group.z@, p, b);
        } else if j == p {
            lemma_new_level(before, group.z@, p, a);
        } else {
            assert(text_before(before[a].z@, before[b].z@));
        }
    }
}

proof fn lemma_item_opens_group(
    all: Seq<ItemView>,
    item: ItemView,
    before: Seq<ZoomGroup>,
    group: ZoomGroup,
    p: int,
)
    requires
        grouped(all, before),
        group.z@ == zoom_of(item.rel_key),
        items(group.files@) == seq![item],
        group.files@.len() > 0,
        splits_at(before, group.z@, p),
        p < before.len() ==> before[p].z@ != group.z@,
    ensures
        grouped(all.push(item), before.insert(p, group)),
{
    let after = before.insert(p, group);
    let more = all.push(item);
    let z = group.z@;
    assert(levels_ordered(before));
    lemma_order_with_new_level(before, group, p);
    assert forall|i: int| 0 <= i < all.len() implies zoom_of(#[trigger] all[i].rel_key) != z by {
        assert(has_level(before, zoom_of(all[i].rel_key)));
        let g = choose|g: int|
            0 <= g < before.len() && #[trigger] before[g].z@ == zoom_of(all[i].rel_key);
        lemma_new_level(before, z, p, g);
    }
    lemma_no_item(all, z);
    assert forall|g: int| 0 <= g < after.len() implies items(#[trigger] after[g].files@) == of_zoom(
        more,
        after[g].z@,
    ) by {
        lemma_of_zoom_push(all, item, after[g].z@);
        if g == p {
            assert(Seq::<ItemView>::empty().push(item) =~= seq![item]);
        } else {
            let h = if g < p {
                g
            } else {
                g - 1
            };
            assert(after[g] == before[h]);
            assert(items(before[h].files@) == of_zoom(all, before[h].z@));
            lemma_new_level(before, z, p, h);
        }
    }
    assert forall|g: int| 0 <= g < after.len() implies #[trigger] after[g].files@.len() > 0 by {
        if g != p {
            let h = if g < p {
                g
            } else {
                g - 1
            };
            assert(after[g] == before[h]);
            assert(before[h].files@.len() > 0);
        }
    }
    assert forall|i: int| 0 <= i < more.len() implies has_level(
        after,
        zoom_of(#[trigger] more[i].rel_key),
    ) by {
        if i < all.len() {
            assert(has_level(before, zoom_of(all[i].rel_key)));
            let g = choose|g: int|
                0 <= g < before.len() && #[trigger] before[g].z@ == zoom_of(all[i].rel_key);
            let h = if g < p {
                g
            } else {
                g + 1
            };
            assert(after[h] == before[g]);
            assert(after[h].z@ == zoom_of(more[i].rel_key));
        } else {
            assert(after[p].z@ == zoom_of(item.rel_key));
        }
    }
}

/// Puts one more item to the group of its level.
fn add_item(groups: &mut Vec<ZoomGroup>, item: UploadItem, Ghost(all): Ghost<Seq<ItemView>>)
    requires
        grouped(all, old(groups)@),
    ensures
        grouped(all.push(item@), final(groups)@),
{
    let z = zoom_level(item.rel_key.as_str());
    let ghost before = groups@;
    let ghost view = item@;
    let (p, found) = find_group(groups, z.as_str());
    if found {
        let mut group = groups.remove(p);
        let ghost files = items(group.files@);
        group.files.push(item);
        assert(items(group.files@) =~= files.push(view));
        groups.insert(p, group);
        proof {
            lemma_item_joins_group(all, view, before, groups@, p as int);
        }
    } else {
        let mut files: Vec<UploadItem> = Vec::new();
        files.push(item);
        assert(items(files@) =~= seq![view]);
        let group = ZoomGroup { z, files };
        proof {
            lemma_item_opens_group(all, view, before, group, p as int);
        }
        groups.insert(p, group);
    }
}

/// The items in groups by zoom level.
fn group_by_zoom(list: Vec<UploadItem>) -> (r: Vec<ZoomGroup>)
    ensures
        grouped(items(list@), r@),
{
    let mut groups: Vec<ZoomGroup> = Vec::new();
    let ghost all = items(list@);
    let mut i: usize = 0;
    assert(all.take(0) =~= Seq::<ItemView>::empty());
    while i < list.len()
        invariant
            i <= list@.len(),
            all == items(list@),
            grouped(all.take(i as int), groups@),
        decreases list@.len() - i,
    {
        let item = UploadItem {
            file_path: list[i].file_path.clone(),
            rel_key: list[i].rel_key.clone(),
        };
        assert(all.take(i + 1) =~= all.take(i as int).push(item@));
        add_item(&mut groups, item, Ghost(all.take(i as int)));
        i += 1;
    }
    assert(all.take(all.len() as int) =~= all);
    groups
}

/// The items are the files of a batch with their keys.
pub open spec fn items_of(
    output_dir: Seq<char>,
    files: Seq<Seq<char>>,
    all: Seq<ItemView>,
) -> bool {
    &&& all.len() == files.len()
    &&& forall|i: int|
        0 <= i < all.len() ==> (#[trigger] all[i]).file_path == files[i] && key_outcome(
            output_dir,
            files[i],
            all[i].rel_key,
        )
}

/// The groups hold the files of an output directory by zoom level.
pub open spec fn files_grouped(
    output_dir: Seq<char>,
    files: Seq<Seq<char>>,
    groups: Seq<ZoomGroup>,
) -> bool {
    exists|all: Seq<ItemView>|
        items_of(output_dir, files, all) && #[trigger] grouped(all, groups)
}

/// The files in groups by zoom level. The groups are sent one after another, so that not all
/// levels are under way at a time.
pub fn group_files_by_z(output_dir: &str, files: &Vec<String>) -> (r: Vec<ZoomGroup>)
    ensures
        files_grouped(output_dir@, texts(files@), r@),
{
    let mut list: Vec<UploadItem> = Vec::new();
    let ghost all = texts(files@);
    let mut i: usize = 0;
    while i < files.len()
        invariant
            i <= files@.len(),
            all == texts(files@),
            items_of(output_dir@, all.take(i as int), items(list@)),
        decreases files@.len() - i,
    {
        let item = upload_item(output_dir, files[i].as_str());
        let ghost before = items(list@);
        let ghost view = item@;
        list.push(item);
        proof {
            assert(items(list@) =~= before.push(view));
            let longer = all.take(i + 1);
            assert forall|j: int| 0 <= j < items(list@).len() implies (#[trigger] items(
                list@,
            )[j]).file_path == longer[j] && key_outcome(
                output_dir@,
                longer[j],
                items(list@)[j].rel_key,
            ) by {
                if j < i {
                    assert(before[j].file_path == all.take(i as int)[j]);
                    assert(longer[j] == all.take(i as int)[j]);
                }
            }
        }
        i += 1;
    }
    assert(all.take(all.len() as int) =~= all);
    group_by_zoom(list)
}

/// The items of all groups, one group after another.
pub open spec fn flattened(groups: Seq<ZoomGroup>) -> Seq<ItemView>
    decreases groups.len(),
{
    if groups.len() == 0 {
        Seq::empty()
    } else {
        flattened(groups.drop_last()) + items(groups.last().files@)
    }
}

proof fn lemma_count_of_zoom(all: Seq<ItemView>, z: Seq<char>, item: ItemView)
    ensures
        of_zoom(all, z).to_multiset().count(item) == if zoom_of(item.rel_key) == z {
            all.to_multiset().count(item)
        } else {
            0
        },
    decreases all.len(),
{
    broadcast use vstd::seq_lib::group_to_multiset_ensures;

    if all.len() == 0 {
        reveal(Seq::filter);
    } else {
        lemma_count_of_zoom(all.drop_last(), z, item);
        lemma_of_zoom_push(all.drop_last(), all.last(), z);
        assert(all.drop_last().push(all.last()) == all);
    }
}

proof fn lemma_count_flattened(all: Seq<ItemView>, groups: Seq<ZoomGroup>, k: int, item: ItemView)
    requires
        grouped(all, groups),
        0 <= k <= groups.len(),
    ensures
        flattened(groups.take(k)).to_multiset().count(item) == if exists|g: int|
            0 <= g < k && #[trigger] groups[g].z@ == zoom_of(item.rel_key) {
            all.to_multiset().count(item)
        } else {
            0
        },
    decreases k,
{
    broadcast use vstd::seq_lib::group_to_multiset_ensures;

    if k > 0 {
        lemma_count_flattened(all, groups, k - 1, item);
        let group = groups[k - 1];
        assert(groups.take(k).drop_last() == groups.take(k - 1));
        assert(groups.take(k).last() == group);
        assert(items(groups[k - 1].files@) == of_zoom(all, groups[k - 1].z@));
        lemma_count_of_zoom(all, group.z@, item);
        vstd::seq_lib::lemma_multiset_commutative(
            flattened(groups.take(k - 1)),
            items(group.files@),
        );
        if zoom_of(item.rel_key) == group.z@ {
            assert forall|g: int| 0 <= g < k - 1 implies #[trigger] groups[g].z@ != zoom_of(
                item.rel_key,
            ) by {
                assert(text_before(groups[g].z@, groups[k - 1].z@));
                lemma_before_irreflexive(encode_utf8(group.z@));
            }
        }
    }
}

/// The groups hold each item of a batch as often as the batch does: none is left out and none is
/// sent twice.
pub proof fn groups_hold_every_item(all: Seq<ItemView>, groups: Seq<ZoomGroup>)
    requires
        grouped(all, groups),
    ensures
        flattened(groups).to_multiset() == all.to_multiset(),
{
    broadcast use vstd::seq_lib::group_to_multiset_ensures;

    assert(groups.take(groups.len() as int) == groups);
    assert forall|item: ItemView| flattened(groups).to_multiset().count(item)
        == all.to_multiset().count(item) by {
        lemma_count_flattened(all, groups, groups.len() as int, item);
        if all.contains(item) {
            let i = choose|i: int| 0 <= i < all.len() && all[i] == item;
            assert(zoom_of(all[i].rel_key) == zoom_of(item.rel_key));
        } else {
            assert(all.to_multiset().count(item) == 0);
        }
    }
    assert(flattened(groups).to_multiset() =~= all.to_multiset());
}

/// A batch without a file is one whose output directory has no file that is sent.
pub proof fn empty_batch_has_no_file(
    walked: Seq<Seq<char>>,
    intermediates: Seq<Seq<char>>,
    i: int,
)
    requires
        collected(walked, intermediates, Seq::empty()),
        0 <= i < walked.len(),
    ensures
        sent_outcome(walked[i], intermediates, false),
{
    broadcast use vstd::seq_lib::group_to_multiset_ensures;

    let marks = choose|marks: Seq<bool>|
        marks_fit(walked, intermediates, marks) && Seq::<Seq<char>>::empty().to_multiset()
            == #[trigger] marked(walked, marks).to_multiset();
    assert(marked(walked, marks).to_multiset().len() == 0);
    if marks[i] {
        lemma_marked_has(walked, marks, i);
    }
}

proof fn lemma_marked_has(paths: Seq<Seq<char>>, marks: Seq<bool>, i: int)
    requires
        marks.len() == paths.len(),
        0 <= i < paths.len(),
        marks[i],
    ensures
        marked(paths, marks).contains(paths[i]),
    decreases paths.len(),
{
    let before = marked(paths.drop_last(), marks.drop_last());
    if i < paths.len() - 1 {
        lemma_marked_has(paths.drop_last(), marks.drop_last(), i);
        let k = choose|k: int| 0 <= k < before.len() && before[k] == paths[i];
        if marks.last() {
            assert(before.push(paths.last())[k] == paths[i]);
        }
    } else {
        assert(before.push(paths.last())[before.len() as int] == paths[i]);
    }
}

proof fn lemma_marked_from(paths: Seq<Seq<char>>, marks: Seq<bool>, path: Seq<char>)
    requires
        marked(paths, marks).contains(path),
    ensures
        marks.len() == paths.len(),
        exists|i: int| 0 <= i < paths.len() && #[trigger] paths[i] == path && marks[i],
    decreases paths.len(),
{
    let before = marked(paths.drop_last(), marks.drop_last());
    let k = choose|k: int| 0 <= k < marked(paths, marks).len() && marked(paths, marks)[k] == path;
    if k < before.len() {
        assert(before[k] == path);
        lemma_marked_from(paths.drop_last(), marks.drop_last(), path);
        let i = choose|i: int|
            0 <= i < paths.len() - 1 && #[trigger] paths.drop_last()[i] == path
                && marks.drop_last()[i];
        assert(paths[i] == path && marks[i]);
    } else {
        assert(paths[paths.len() - 1] == path);
    }
}

/// A file of a batch lies in the output directory, is no file between the stages of the job, and is
/// no page, no map of another program, no text and no log.
pub proof fn batch_holds_only_its_files(
    walked: Seq<Seq<char>>,
    intermediates: Seq<Seq<char>>,
    files: Seq<Seq<char>>,
    k: int,
)
    requires
        collected(walked, intermediates, files),
        0 <= k < files.len(),
    ensures
        walked.contains(files[k]),
        among(files[k], intermediates, false),
        !intermediates.contains(files[k]),
        upload_outcome(files[k], true),
{
    broadcast use vstd::seq_lib::group_to_multiset_ensures;

    let marks = choose|marks: Seq<bool>|
        marks_fit(walked, intermediates, marks) && files.to_multiset() == #[trigger] marked(
            walked,
            marks,
        ).to_multiset();
    assert(files.to_multiset().count(files[k]) > 0) by {
        assert(files.contains(files[k]));
    }
    assert(marked(walked, marks).contains(files[k]));
    lemma_marked_from(walked, marks, files[k]);
    if intermediates.contains(files[k]) {
        let j = choose|j: int| 0 <= j < intermediates.len() && intermediates[j] == files[k];
        assert(same_path_outcome(files[k], intermediates[j], false));
    }
}

// What comes of a batch.

/// A file that could not be sent.
#[derive(Debug, Clone)]
pub struct UploadFailure {
    pub file_path: String,
    pub error: String,
}

/// The content of an [`UploadFailure`].
pub ghost struct FailureView {
    pub file_path: Seq<char>,
    pub error: Seq<char>,
}

impl View for UploadFailure {
    type V = FailureView;

    open spec fn view(&self) -> FailureView {
        FailureView { file_path: self.file_path@, error: self.error@ }
    }
}

/// The contents of a list of failures.
pub open spec fn failure_views(v: Seq<UploadFailure>) -> Seq<FailureView> {
    v.map_values(|f: UploadFailure| f@)
}

/// What came of an upload.
#[derive(Debug, Clone)]
pub struct OssUploadSummary {
    pub uploaded_count: usize,
    pub failed_count: usize,
    pub bucket: String,
    pub prefix: String,
    pub public_base_url: String,
    pub sample_tile_url: Option<String>,
    pub failures: Vec<UploadFailure>,
}

/// The content of an [`OssUploadSummary`].
pub ghost struct SummaryView {
    pub uploaded_count: int,
    pub failed_count: int,
    pub bucket: Seq<char>,
    pub prefix: Seq<char>,
    pub public_base_url: Seq<char>,
    pub sample_tile_url: Option<Seq<char>>,
    pub failures: Seq<FailureView>,
}

impl View for OssUploadSummary {
    type V = SummaryView;

    open spec fn view(&self) -> SummaryView {
        SummaryView {
            uploaded_count: self.uploaded_count as int,
            failed_count: self.failed_count as int,
            bucket: self.bucket@,
            prefix: self.prefix@,
            public_base_url: self.public_base_url@,
            sample_tile_url: opt_text(self.sample_tile_url),
            failures: failure_views(self.failures@),
        }
    }
}

/// What has come of a batch so far.
#[derive(Debug, Clone)]
pub struct UploadTally {
    pub uploaded_count: usize,
    pub sample_tile_url: Option<String>,
    pub failures: Vec<UploadFailure>,
}

/// The content of an [`UploadTally`].
pub ghost struct TallyView {
    pub uploaded_count: int,
    pub sample_tile_url: Option<Seq<char>>,
    pub failures: Seq<FailureView>,
}

impl View for UploadTally {
    type V = TallyView;

    open spec fn view(&self) -> TallyView {
        TallyView {
            uploaded_count: self.uploaded_count as int,
            sample_tile_url: opt_text(self.sample_tile_url),
            failures: failure_views(self.failures@),
        }
    }
}

/// The key is that of a tile picture.
pub open spec fn is_tile_key(rel_key: Seq<char>) -> bool {
    finishes_with(rel_key, ".webp"@) || finishes_with(rel_key, ".jpg"@) || finishes_with(
        rel_key,
        ".jpeg"@,
    )
}

/// Nothing has been sent.
pub open spec fn no_outcome() -> TallyView {
    TallyView { uploaded_count: 0, sample_tile_url: None, failures: Seq::empty() }
}

/// The tally after one more file: sent, with its URL, or failed, with the error. The first tile
/// sent is the sample.
pub open spec fn recorded(
    t: TallyView,
    rel_key: Seq<char>,
    outcome: Result<Seq<char>, Seq<char>>,
) -> TallyView {
    match outcome {
        Ok(url) => TallyView {
            uploaded_count: t.uploaded_count + 1,
            sample_tile_url: if t.sample_tile_url is None && is_tile_key(rel_key) {
                Some(url)
            } else {
                t.sample_tile_url
            },
            ..t
        },
        Err(error) => TallyView {
            failures: t.failures.push(FailureView { file_path: rel_key, error }),
            ..t
        },
    }
}

/// The tally of outcomes, each with the key of its file, one after another.
pub open spec fn tallied(outcomes: Seq<(Seq<char>, Result<Seq<char>, Seq<char>>)>) -> TallyView
    decreases outcomes.len(),
{
    if outcomes.len() == 0 {
        no_outcome()
    } else {
        recorded(tallied(outcomes.drop_last()), outcomes.last().0, outcomes.last().1)
    }
}

/// Every outcome is counted once: as sent or as failed.
pub proof fn every_outcome_counts_once(
    outcomes: Seq<(Seq<char>, Result<Seq<char>, Seq<char>>)>,
)
    ensures
        tallied(outcomes).uploaded_count + tallied(outcomes).failures.len() == outcomes.len(),
        tallied(outcomes).uploaded_count >= 0,
    decreases outcomes.len(),
{
    if outcomes.len() > 0 {
        every_outcome_counts_once(outcomes.drop_last());
    }
}

/// A batch has a sample if and only if a tile of it was sent, and then the sample is the URL of
/// such a tile.
pub proof fn sample_is_a_sent_tile(outcomes: Seq<(Seq<char>, Result<Seq<char>, Seq<char>>)>)
    ensures
        tallied(outcomes).sample_tile_url is Some <==> exists|i: int|
            0 <= i < outcomes.len() && #[trigger] is_tile_key(outcomes[i].0) && outcomes[i].1 is Ok,
        tallied(outcomes).sample_tile_url matches Some(url) ==> exists|i: int|
            0 <= i < outcomes.len() && #[trigger] is_tile_key(outcomes[i].0) && outcomes[i].1 == Ok::<
                Seq<char>,
                Seq<char>,
            >(url),
    decreases outcomes.len(),
{
    if outcomes.len() > 0 {
        let before = outcomes.drop_last();
        sample_is_a_sent_tile(before);
        let n = outcomes.len() - 1;
        assert(forall|i: int| 0 <= i < n ==> before[i] == outcomes[i]);
        if tallied(before).sample_tile_url is Some {
            let url = tallied(before).sample_tile_url->Some_0;
            let i = choose|i: int|
                0 <= i < before.len() && #[trigger] is_tile_key(before[i].0) && before[i].1 == Ok::<
                    Seq<char>,
                    Seq<char>,
                >(url);
            assert(is_tile_key(outcomes[i].0));
        } else {
            assert forall|i: int| 0 <= i < n && #[trigger] is_tile_key(outcomes[i].0) implies
                outcomes[i].1 is Err by {
                assert(is_tile_key(before[i].0));
            }
            if is_tile_key(outcomes[n].0) && outcomes[n].1 is Ok {
                assert(is_tile_key(outcomes[n].0));
            }
        }
    }
}

impl UploadTally {
    /// Nothing has been sent.
    pub fn new() -> (r: UploadTally)
        ensures
            r@ == no_outcome(),
    {
        let r = UploadTally { uploaded_count: 0, sample_tile_url: None, failures: Vec::new() };
        assert(failure_views(r.failures@) =~= Seq::<FailureView>::empty());
        r
    }

    /// Records what came of one file. The result is the number of files sent so far, which is to
    /// be reported, where this one was sent.
    pub fn record(&mut self, rel_key: &str, outcome: Result<String, String>) -> (r: Option<usize>)
        requires
            old(self).uploaded_count < usize::MAX,
        ensures
            final(self)@ == recorded(old(self)@, rel_key@, text_result(outcome)),
            r == match outcome {
                Ok(_) => Some(final(self).uploaded_count),
                Err(_) => None::<usize>,
            },
    {
        match outcome {
            Ok(url) => {
                self.uploaded_count = self.uploaded_count + 1;
                if ends_with(rel_key, ".webp") || ends_with(rel_key, ".jpg") || ends_with(
                    rel_key,
                    ".jpeg",
                ) {
                    if self.sample_tile_url.is_none() {
                        self.sample_tile_url = Some(url);
                    }
                }
                Some(self.uploaded_count)
            },
            Err(error) => {
                let ghost before = failure_views(self.failures@);
                let failure = UploadFailure { file_path: rel_key.to_string(), error };
                let ghost view = failure@;
                self.failures.push(failure);
                assert(failure_views(self.failures@) =~= before.push(view));
                None
            },
        }
    }
}

/// An upload that is about to be sent.
#[derive(Debug, Clone)]
pub struct UploadPlan {
    pub config: OssResolvedConfig,
    pub upload_run_id: String,
    pub groups: Vec<ZoomGroup>,
    pub total: usize,
}

/// The plan sends the files of a batch, group by group, to the target that the request and the
/// environment give.
pub open spec fn plan_fits(
    output_dir: Seq<char>,
    run_id: Seq<char>,
    target: ResolvedView,
    files: Seq<Seq<char>>,
    plan: UploadPlan,
) -> bool {
    &&& plan.config@ == target
    &&& plan.upload_run_id@ == run_id
    &&& plan.total == files.len()
    &&& files_grouped(output_dir, files, plan.groups@)
}

/// What is planned for the files in an output directory: nothing where a credential is missing or
/// no file belongs to a batch, and the error says so.
pub open spec fn upload_planned(
    output_dir: Seq<char>,
    run_id: Seq<char>,
    config: OssUploadConfig,
    env: OssEnvironment,
    walked: Seq<Seq<char>>,
    intermediates: Seq<Seq<char>>,
    r: Result<UploadPlan, String>,
) -> bool {
    match resolved(config, env) {
        Err(e) => r is Err && r->Err_0@ == e,
        Ok(target) => exists|files: Seq<Seq<char>>| #[trigger]
            collected(walked, intermediates, files) && match r {
                Ok(plan) => files.len() > 0 && plan_fits(output_dir, run_id, target, files, plan),
                Err(e) => files.len() == 0 && e@ == "输出目录为空，没有可上传文件"@,
            },
    }
}

/// Plans the upload of the tiles in an output directory, given the files that lie there and those
/// between the stages of the job, which are not sent.
pub fn upload_tiles_to_oss(
    output_dir: &str,
    upload_run_id: &str,
    config: &OssUploadConfig,
    env: &OssEnvironment,
    walked: &Vec<String>,
    intermediates: &Vec<String>,
) -> (r: Result<UploadPlan, String>)
    ensures
        upload_planned(
            output_dir@,
            upload_run_id@,
            *config,
            *env,
            texts(walked@),
            texts(intermediates@),
            r,
        ),
{
    match resolve_config(config, env) {
        Err(e) => Err(e),
        Ok(target) => {
            let files = collect_upload_files(walked, intermediates);
            assert(collected(texts(walked@), texts(intermediates@), texts(files@)));
            if files.len() == 0 {
                return Err("输出目录为空，没有可上传文件".to_string());
            }
            let groups = group_files_by_z(output_dir, &files);
            Ok(
                UploadPlan {
                    config: target,
                    upload_run_id: upload_run_id.to_string(),
                    groups,
                    total: files.len(),
                },
            )
        },
    }
}

/// No file between the stages of a job is in any group of the batch that is planned for its tiles.
pub proof fn files_between_stages_are_not_sent(
    output_dir: Seq<char>,
    run_id: Seq<char>,
    config: OssUploadConfig,
    env: OssEnvironment,
    walked: Seq<Seq<char>>,
    intermediates: Seq<Seq<char>>,
    plan: UploadPlan,
    g: int,
    i: int,
)
    requires
        upload_planned(output_dir, run_id, config, env, walked, intermediates, Ok(plan)),
        0 <= g < plan.groups@.len(),
        0 <= i < plan.groups@[g].files@.len(),
    ensures
        among(plan.groups@[g].files@[i]@.file_path, intermediates, false),
        !intermediates.contains(plan.groups@[g].files@[i]@.file_path),
{
    let target = resolved(config, env)->Ok_0;
    let files = choose|files: Seq<Seq<char>>| #[trigger]
        collected(walked, intermediates, files) && files.len() > 0 && plan_fits(
            output_dir,
            run_id,
            target,
            files,
            plan,
        );
    let all = choose|all: Seq<ItemView>|
        items_of(output_dir, files, all) && #[trigger] grouped(all, plan.groups@);
    let item = plan.groups@[g].files@[i]@;
    assert(items(plan.groups@[g].files@)[i] == item);
    lemma_group_item(all, plan.groups@, g, i);
    let k = choose|k: int| 0 <= k < all.len() && all[k] == item;
    assert(all[k].file_path == files[k]);
    batch_holds_only_its_files(walked, intermediates, files, k);
}

proof fn lemma_group_item(all: Seq<ItemView>, groups: Seq<ZoomGroup>, g: int, i: int)
    requires
        grouped(all, groups),
        0 <= g < groups.len(),
        0 <= i < groups[g].files@.len(),
    ensures
        all.contains(groups[g].files@[i]@),
{
    assert(items(groups[g].files@) == of_zoom(all, groups[g].z@));
    assert(items(groups[g].files@)[i] == groups[g].files@[i]@);
    all.lemma_filter_contains_rev(
        |item: ItemView| zoom_of(item.rel_key) == groups[g].z@,
        groups[g].files@[i]@,
    );
}

/// The error of an upload whose HTTP client could not be made.
pub fn client_failure(err: &str) -> (r: String)
    ensures
        r@ == "创建 HTTP 客户端失败: "@ + err@,
{
    concat2("创建 HTTP 客户端失败: ", err)
}

/// The error of an upload whose thread pool could not be made.
pub fn pool_failure(err: &str) -> (r: String)
    ensures
        r@ == "初始化上传线程池失败: "@ + err@,
{
    concat2("初始化上传线程池失败: ", err)
}

/// What came of an upload as a whole: a summary, unless it was cancelled.
pub open spec fn upload_result(
    target: ResolvedView,
    run_id: Seq<char>,
    t: TallyView,
    cancelled: bool,
) -> Result<SummaryView, Seq<char>> {
    if cancelled {
        Err("OSS 上传已被取消"@)
    } else {
        Ok(
            SummaryView {
                uploaded_count: t.uploaded_count,
                failed_count: t.failures.len() as int,
                bucket: target.bucket,
                prefix: target.prefix,
                public_base_url: public_base(target, run_id),
                sample_tile_url: t.sample_tile_url,
                failures: t.failures,
            },
        )
    }
}

/// The content of the result of an upload.
pub open spec fn summary_result(r: Result<OssUploadSummary, String>) -> Result<
    SummaryView,
    Seq<char>,
> {
    match r {
        Ok(s) => Ok(s@),
        Err(e) => Err(e@),
    }
}

impl UploadPlan {
    /// The object that a file of the batch is to be sent to; none once the upload is cancelled.
    pub fn next_object(&self, item: &UploadItem, cancelled: bool) -> (r: Option<String>)
        ensures
            opt_text(r) == if cancelled {
                None
            } else {
                Some(object_key(self.config@.prefix, self.upload_run_id@, item@.rel_key))
            },
    {
        if cancelled {
            None
        } else {
            Some(
                build_object_key(
                    self.config.prefix.as_str(),
                    self.upload_run_id.as_str(),
                    item.rel_key.as_str(),
                ),
            )
        }
    }

    /// What came of the upload, when all groups have been sent or skipped.
    pub fn finish(&self, tally: UploadTally, cancelled: bool) -> (r: Result<
        OssUploadSummary,
        String,
    >)
        ensures
            summary_result(r) == upload_result(
                self.config@,
                self.upload_run_id@,
                tally@,
                cancelled,
            ),
    {
        if cancelled {
            return Err("OSS 上传已被取消".to_string());
        }
        Ok(
            OssUploadSummary {
                uploaded_count: tally.uploaded_count,
                failed_count: tally.failures.len(),
                bucket: self.config.bucket.clone(),
                prefix: self.config.prefix.clone(),
                public_base_url: build_public_base_url(&self.config, self.upload_run_id.as_str()),
                sample_tile_url: tally.sample_tile_url,
                failures: tally.failures,
            },
        )
    }
}

/// Every file of the output directory is in the batch that is no file between the stages and whose
/// extension is none of `html`, `htm`, `kml`, `txt` and `log`.
pub proof fn every_other_file_is_sent(
    walked: Seq<Seq<char>>,
    intermediates: Seq<Seq<char>>,
    files: Seq<Seq<char>>,
    i: int,
)
    requires
        collected(walked, intermediates, files),
        0 <= i < walked.len(),
        !among(walked[i], intermediates, true),
        forall|ext: Option<Seq<char>>| #[trigger]
            extension_outcome(walked[i], ext) ==> !(ext matches Some(e) && (ascii_lower(e)
                == "html"@ || ascii_lower(e) == "htm"@ || ascii_lower(e) == "kml"@ || ascii_lower(e)
                == "txt"@ || ascii_lower(e) == "log"@)),
    ensures
        files.contains(walked[i]),
{
    broadcast use vstd::seq_lib::group_to_multiset_ensures;

    let marks = choose|marks: Seq<bool>|
        marks_fit(walked, intermediates, marks) && files.to_multiset() == #[trigger] marked(
            walked,
            marks,
        ).to_multiset();
    assert(sent_outcome(walked[i], intermediates, marks[i]));
    if !marks[i] {
        let ext = choose|ext: Option<Seq<char>>| #[trigger]
            extension_outcome(walked[i], ext) && false == is_uploaded(ext);
        assert(false);
    }
    lemma_marked_has(walked, marks, i);
    assert(marked(walked, marks).to_multiset().count(walked[i]) > 0);
}

/// No file whose extension is one of `html`, `htm`, `kml`, `txt` and `log` is in a batch.
pub proof fn pages_and_logs_are_never_sent(
    walked: Seq<Seq<char>>,
    intermediates: Seq<Seq<char>>,
    files: Seq<Seq<char>>,
    path: Seq<char>,
)
    requires
        collected(walked, intermediates, files),
        forall|ext: Option<Seq<char>>| #[trigger]
            extension_outcome(path, ext) ==> (ext matches Some(e) && (ascii_lower(e) == "html"@
                || ascii_lower(e) == "htm"@ || ascii_lower(e) == "kml"@ || ascii_lower(e) == "txt"@
                || ascii_lower(e) == "log"@)),
    ensures
        !files.contains(path),
{
    if files.contains(path) {
        let k = choose|k: int| 0 <= k < files.len() && files[k] == path;
        batch_holds_only_its_files(walked, intermediates, files, k);
        let ext = choose|ext: Option<Seq<char>>| #[trigger]
            extension_outcome(path, ext) && true == is_uploaded(ext);
        assert(false);
    }
}

/// Every picture in the output directory is in the batch, WebP or JPEG, unless it is a file between
/// the stages.
pub proof fn every_tile_is_sent(
    walked: Seq<Seq<char>>,
    intermediates: Seq<Seq<char>>,
    files: Seq<Seq<char>>,
    front: Seq<char>,
    word: Seq<char>,
)
    requires
        collected(walked, intermediates, files),
        word == "webp"@ || word == "jpg"@ || word == "jpeg"@,
        walked.contains(front + seq!['.'] + word),
        !among(front + seq!['.'] + word, intermediates, true),
        is_regular(front + seq!['.'] + word),
        ends_in_name(front + seq!['.'] + word),
        front.len() > 0,
        !is_separator(front.last()),
    ensures
        files.contains(front + seq!['.'] + word),
        is_tile_key(front + seq!['.'] + word),
{
    reveal_strlit("webp");
    reveal_strlit("jpg");
    reveal_strlit("jpeg");
    reveal_strlit("html");
    reveal_strlit("htm");
    reveal_strlit("kml");
    reveal_strlit("txt");
    reveal_strlit("log");
    let p = front + seq!['.'] + word;
    let i = choose|i: int| 0 <= i < walked.len() && walked[i] == p;
    assert(word.len() >= 3);
    assert(word[0] == 'w' || word[0] == 'j');
    assert forall|ext: Option<Seq<char>>| #[trigger] extension_outcome(p, ext) implies !(
    ext matches Some(e) && (ascii_lower(e) == "html"@ || ascii_lower(e) == "htm"@ || ascii_lower(e)
        == "kml"@ || ascii_lower(e) == "txt"@ || ascii_lower(e) == "log"@)) by {
        written_extension_is_read(front, word, ext);
        let low = ascii_lower(word);
        assert(low[0] == word[0]);
        assert("html"@[0] == 'h' && "htm"@[0] == 'h' && "kml"@[0] == 'k' && "txt"@[0] == 't'
            && "log"@[0] == 'l');
    }
    every_other_file_is_sent(walked, intermediates, files, i);
    tile_keys_are_known_by_their_end(p);
    if word == "webp"@ {
        reveal_strlit(".webp");
        assert(p =~= front + ".webp"@);
        tile_keys_are_known_by_their_end(front);
    } else if word == "jpg"@ {
        reveal_strlit(".jpg");
        assert(p =~= front + ".jpg"@);
        tile_keys_are_known_by_their_end(front);
    } else {
        reveal_strlit(".jpeg");
        assert(p =~= front + ".jpeg"@);
        tile_keys_are_known_by_their_end(front);
    }
}

/// The key of a tile is one that ends in `.webp`, `.jpg` or `.jpeg`, and no other.
pub proof fn tile_keys_are_known_by_their_end(key: Seq<char>)
    ensures
        is_tile_key(key + ".webp"@),
        is_tile_key(key + ".jpg"@),
        is_tile_key(key + ".jpeg"@),
        is_tile_key(key) ==> exists|front: Seq<char>|
            key == #[trigger] (front + ".webp"@) || key == front + ".jpg"@ || key == front
                + ".jpeg"@,
{
    lemma_finishes(key, ".webp"@);
    lemma_finishes(key, ".jpg"@);
    lemma_finishes(key, ".jpeg"@);
    if is_tile_key(key) {
        let end = if finishes_with(key, ".webp"@) {
            ".webp"@
        } else if finishes_with(key, ".jpg"@) {
            ".jpg"@
        } else {
            ".jpeg"@
        };
        let front = key.take(key.len() - end.len());
        assert(key =~= front + end);
        assert(key == front + ".webp"@ || key == front + ".jpg"@ || key == front + ".jpeg"@);
    }
}

proof fn lemma_finishes(front: Seq<char>, end: Seq<char>)
    ensures
        finishes_with(front + end, end),
{
    let s = front + end;
    let n = front.len() as int;
    assert(s.subrange(n, n + end.len()) =~= end);
}

/// A file that was sent is counted and leaves the failures as they are; the first tile that was sent
/// is the sample and stays it. A file that failed is told of with its key and its error, and changes
/// nothing else.
pub proof fn outcomes_are_recorded(
    t: TallyView,
    rel_key: Seq<char>,
    url: Seq<char>,
    error: Seq<char>,
)
    ensures
        recorded(t, rel_key, Ok(url)).uploaded_count == t.uploaded_count + 1,
        recorded(t, rel_key, Ok(url)).failures == t.failures,
        t.sample_tile_url is Some ==> recorded(t, rel_key, Ok(url)).sample_tile_url
            == t.sample_tile_url,
        t.sample_tile_url is None ==> recorded(t, rel_key + ".webp"@, Ok(url)).sample_tile_url
            == Some(url),
        t.sample_tile_url is None ==> recorded(t, rel_key + ".jpg"@, Ok(url)).sample_tile_url
            == Some(url),
        t.sample_tile_url is None ==> recorded(t, rel_key + ".jpeg"@, Ok(url)).sample_tile_url
            == Some(url),
        recorded(t, rel_key, Err(error)).uploaded_count == t.uploaded_count,
        recorded(t, rel_key, Err(error)).sample_tile_url == t.sample_tile_url,
        recorded(t, rel_key, Err(error)).failures.len() == t.failures.len() + 1,
        recorded(t, rel_key, Err(error)).failures.drop_last() == t.failures,
        recorded(t, rel_key, Err(error)).failures.last().file_path == rel_key,
        recorded(t, rel_key, Err(error)).failures.last().error == error,
{
    tile_keys_are_known_by_their_end(rel_key);
    assert(recorded(t, rel_key, Err(error)).failures.drop_last() =~= t.failures);
}

/// The level of a key is what stands before its first slash; a key that begins with a slash, or is
/// empty, has the common name.
pub proof fn level_stands_before_the_first_slash(z: Seq<char>, rest: Seq<char>)
    requires
        !z.contains('/'),
    ensures
        z.len() > 0 ==> zoom_of(z + seq!['/'] + rest) == z && zoom_of(z) == z,
        z.len() == 0 ==> zoom_of(z + seq!['/'] + rest) == "_misc"@ && zoom_of(z) == "_misc"@,
{
    let k = CharClass::Exactly('/');
    assert forall|i: int| 0 <= i < z.len() implies !k.has(#[trigger] z[i]) by {
        assert(z.contains(z[i]));
    }
    lemma_split_single(z, k);
    lemma_split_concat(z, '/', rest, k);
}

/// The summary of an upload that was not cancelled tells of the target, of how many files were sent
/// and how many failed, and of each that failed; a cancelled upload has none.
pub proof fn summary_tells_what_happened(target: ResolvedView, run_id: Seq<char>, t: TallyView)
    ensures
        upload_result(target, run_id, t, true) == Err::<SummaryView, Seq<char>>(
            "OSS 上传已被取消"@,
        ),
        upload_result(target, run_id, t, false) matches Ok(s) && s.uploaded_count
            == t.uploaded_count && s.failed_count == t.failures.len() && s.failures == t.failures
            && s.sample_tile_url == t.sample_tile_url && s.bucket == target.bucket && s.prefix
            == target.prefix && s.public_base_url == public_base(target, run_id),
{
}

/// A planned upload has a file to send, counts all of them, and goes to the target of the settings
/// under the name of the batch; where a credential is missing or there is no file, nothing is sent.
pub proof fn upload_is_planned_for_all_files(
    output_dir: Seq<char>,
    run_id: Seq<char>,
    config: OssUploadConfig,
    env: OssEnvironment,
    walked: Seq<Seq<char>>,
    intermediates: Seq<Seq<char>>,
    r: Result<UploadPlan, String>,
)
    requires
        upload_planned(output_dir, run_id, config, env, walked, intermediates, r),
    ensures
        r matches Ok(plan) ==> resolved(config, env) == Ok::<ResolvedView, Seq<char>>(plan.config@)
            && plan.upload_run_id@ == run_id && plan.total > 0 && plan.total == flattened(
            plan.groups@,
        ).len(),
        r matches Err(e) ==> resolved(config, env) == Err::<ResolvedView, Seq<char>>(e@) || e@
            == "输出目录为空，没有可上传文件"@,
{
    broadcast use vstd::seq_lib::group_to_multiset_ensures;

    if let Ok(plan) = r {
        let target = resolved(config, env)->Ok_0;
        let files = choose|files: Seq<Seq<char>>| #[trigger]
            collected(walked, intermediates, files) && files.len() > 0 && plan_fits(
                output_dir,
                run_id,
                target,
                files,
                plan,
            );
        let all = choose|all: Seq<ItemView>|
            items_of(output_dir, files, all) && #[trigger] grouped(all, plan.groups@);
        groups_hold_every_item(all, plan.groups@);
        assert(flattened(plan.groups@).to_multiset().len() == all.to_multiset().len());
    }
}

/// As many files are sent at a time as there are processors, within 2 and 8; 4 where their number is
/// not known.
pub proof fn two_to_eight_files_at_a_time(processors: Option<usize>, r: usize)
    requires
        call_ensures(upload_worker_count, (processors,), r),
    ensures
        2 <= r <= 8,
        processors matches Some(n) ==> (2 <= n <= 8 ==> r == n) && (n < 2 ==> r == 2) && (n > 8 ==> r
            == 8),
        processors is None ==> r == 4,
{
}

/// A file of a batch is sent to the object below the prefix of the target and the name of the batch,
/// under its key; once the upload is cancelled, it is sent nowhere.
pub proof fn objects_lie_below_their_batch(
    plan: UploadPlan,
    item: UploadItem,
    cancelled: bool,
    r: Option<String>,
)
    requires
        call_ensures(UploadPlan::next_object, (&plan, &item, cancelled), r),
    ensures
        r is None <==> cancelled,
        r matches Some(key) ==> key@ == bare_prefix(plan.config.prefix@) + "/"@ + trimmed(
            plan.upload_run_id@,
        ) + "/"@ + item.rel_key@,
{
}

/// The groups go in the order of their levels, no level twice, and each file goes with its level.
pub proof fn groups_go_by_level(all: Seq<ItemView>, groups: Seq<ZoomGroup>, g: int, i: int)
    requires
        grouped(all, groups),
        0 <= g < groups.len(),
    ensures
        groups[g].files@.len() > 0,
        0 <= i < groups[g].files@.len() ==> zoom_of(groups[g].files@[i]@.rel_key) == groups[g].z@,
        g < i < groups.len() ==> text_before(groups[g].z@, groups[i].z@) && groups[g].z@
            != groups[i].z@,
{
    if 0 <= i < groups[g].files@.len() {
        let z = groups[g].z@;
        assert(items(groups[g].files@) == of_zoom(all, z));
        assert(items(groups[g].files@)[i] == groups[g].files@[i]@);
        all.lemma_filter_pred(|item: ItemView| zoom_of(item.rel_key) == z, i);
    }
    if g < i < groups.len() {
        lemma_before_irreflexive(encode_utf8(groups[g].z@));
    }
}

/// Only files between the stages are held back as such: a portable path that is among portable ones
/// has the components of one of them.
pub proof fn only_files_between_stages_are_held_back(path: Seq<char>, list: Seq<Seq<char>>)
    requires
        portable(path),
        forall|j: int| 0 <= j < list.len() ==> portable(#[trigger] list[j]),
    ensures
        among(path, list, true) <==> exists|j: int|
            0 <= j < list.len() && path_components(#[trigger] list[j]) == path_components(path),
        among(path, list, false) <==> forall|j: int|
            0 <= j < list.len() ==> path_components(#[trigger] list[j]) != path_components(path),
{
    assert forall|j: int| 0 <= j < list.len() implies (same_path_outcome(
        path,
        #[trigger] list[j],
        true,
    ) <==> path_components(list[j]) == path_components(path)) && (same_path_outcome(
        path,
        list[j],
        false,
    ) <==> path_components(list[j]) != path_components(path)) by {
        if same_path_outcome(path, list[j], true) {
            portable_paths_are_known(path, list[j], true);
        }
        if same_path_outcome(path, list[j], false) {
            portable_paths_are_known(path, list[j], false);
        }
    }
    if exists|j: int|
        0 <= j < list.len() && path_components(#[trigger] list[j]) == path_components(path) {
        let j = choose|j: int|
            0 <= j < list.len() && path_components(#[trigger] list[j]) == path_components(path);
        assert(same_path_outcome(path, list[j], true));
    }
}

/// Every picture in the output directory is uploaded, where the credentials are there and it is no
/// file between the stages: it is in one of the groups, under the key of its path.
pub proof fn every_tile_is_uploaded(
    output_dir: Seq<char>,
    run_id: Seq<char>,
    config: OssUploadConfig,
    env: OssEnvironment,
    walked: Seq<Seq<char>>,
    intermediates: Seq<Seq<char>>,
    r: Result<UploadPlan, String>,
    front: Seq<char>,
    word: Seq<char>,
)
    requires
        upload_planned(output_dir, run_id, config, env, walked, intermediates, r),
        config.access_key_id is Some || env.access_key_id is Some,
        config.access_key_secret is Some || env.access_key_secret is Some,
        word == "webp"@ || word == "jpg"@ || word == "jpeg"@,
        walked.contains(front + seq!['.'] + word),
        !among(front + seq!['.'] + word, intermediates, true),
        is_regular(front + seq!['.'] + word),
        ends_in_name(front + seq!['.'] + word),
        front.len() > 0,
        !is_separator(front.last()),
    ensures
        r matches Ok(plan) && exists|g: int, i: int|
            0 <= g < plan.groups@.len() && 0 <= i < plan.groups@[g].files@.len()
                && #[trigger] plan.groups@[g].files@[i]@.file_path == front + seq!['.'] + word
                && key_outcome(
                output_dir,
                front + seq!['.'] + word,
                plan.groups@[g].files@[i]@.rel_key,
            ),
{
    let p = front + seq!['.'] + word;
    credentials_of_the_request_go_first(config, env);
    let target = resolved(config, env)->Ok_0;
    let files = choose|files: Seq<Seq<char>>| #[trigger]
        collected(walked, intermediates, files) && match r {
            Ok(plan) => files.len() > 0 && plan_fits(output_dir, run_id, target, files, plan),
            Err(e) => files.len() == 0 && e@ == "输出目录为空，没有可上传文件"@,
        };
    every_tile_is_sent(walked, intermediates, files, front, word);
    let k = choose|k: int| 0 <= k < files.len() && files[k] == p;
    let plan = r->Ok_0;
    let groups = plan.groups@;
    let all = choose|all: Seq<ItemView>|
        items_of(output_dir, files, all) && #[trigger] grouped(all, groups);
    let item = all[k];
    assert(item.file_path == p);
    let z = zoom_of(all[k].rel_key);
    assert(has_level(groups, z));
    let g = choose|g: int| 0 <= g < groups.len() && #[trigger] groups[g].z@ == z;
    let keep = |i: ItemView| zoom_of(i.rel_key) == z;
    assert(items(groups[g].files@) == of_zoom(all, z));
    all.lemma_filter_contains(keep, k);
    let i = choose|i: int| 0 <= i < of_zoom(all, z).len() && of_zoom(all, z)[i] == item;
    assert(items(groups[g].files@)[i] == groups[g].files@[i]@);
    assert(groups[g].files@[i]@.file_path == p);
}

/// A file that does not lie in the output directory has its whole path as its key.
pub proof fn files_elsewhere_keep_their_path(output_dir: Seq<char>, file: Seq<char>, key: Seq<char>)
    requires
        key_outcome(output_dir, file, key),
        portable(output_dir),
        portable(file),
        output_dir.len() > 0,
        !path_components(output_dir).is_prefix_of(path_components(file)),
    ensures
        key == relative_key(file),
{
    portable_components_are_known(output_dir);
    portable_components_are_known(file);
}

proof fn lemma_marked_count(paths: Seq<Seq<char>>, marks: Seq<bool>, path: Seq<char>)
    ensures
        marked(paths, marks).to_multiset().count(path) <= paths.to_multiset().count(path),
    decreases paths.len(),
{
    broadcast use vstd::seq_lib::group_to_multiset_ensures;

    if paths.len() > 0 && marks.len() == paths.len() {
        lemma_marked_count(paths.drop_last(), marks.drop_last(), path);
        assert(paths.drop_last().push(paths.last()) =~= paths);
    }
}

/// The files of a batch stand in the order of their paths, and none stands there more often than in
/// the output directory.
pub proof fn batches_are_in_order_without_repetition(
    walked: Seq<Seq<char>>,
    intermediates: Seq<Seq<char>>,
    files: Seq<Seq<char>>,
    i: int,
    j: int,
)
    requires
        collected(walked, intermediates, files),
        0 <= i < j < files.len(),
    ensures
        !text_before(files[j], files[i]),
        files.to_multiset().count(files[i]) <= walked.to_multiset().count(files[i]),
        walked.no_duplicates() ==> files[i] != files[j],
{
    broadcast use vstd::seq_lib::group_to_multiset_ensures;

    let marks = choose|marks: Seq<bool>|
        marks_fit(walked, intermediates, marks) && in_order(files) && files.to_multiset()
            == #[trigger] marked(walked, marks).to_multiset();
    lemma_marked_count(walked, marks, files[i]);
    if walked.no_duplicates() && files[i] == files[j] {
        walked.lemma_multiset_has_no_duplicates();
        lemma_two_of_a_kind(files, i, j);
        assert(walked.to_multiset().count(files[i]) <= 1) by {
            if walked.to_multiset().contains(files[i]) {
                assert(walked.to_multiset().count(files[i]) == 1);
            }
        }
    }
}

proof fn lemma_two_of_a_kind(s: Seq<Seq<char>>, i: int, j: int)
    requires
        0 <= i < j < s.len(),
        s[i] == s[j],
    ensures
        s.to_multiset().count(s[i]) >= 2,
    decreases s.len(),
{
    broadcast use vstd::seq_lib::group_to_multiset_ensures;

    let head = s.drop_last();
    assert(head.push(s.last()) =~= s);
    if j < s.len() - 1 {
        lemma_two_of_a_kind(head, i, j);
    } else {
        assert(head[i] == s[i]);
        assert(head.contains(s[i]));
        assert(head.to_multiset().count(s[i]) > 0);
    }
}

/// Whether a file belongs to a batch is told by the extension that its path is written with: all do
/// but `html`, `htm`, `kml`, `txt` and `log`, in capital or small letters.
pub proof fn files_are_told_by_their_extension(
    path: &str,
    r: bool,
    front: Seq<char>,
    word: Seq<char>,
)
    requires
        call_ensures(should_upload_file, (path,), r),
        path@ == front + seq!['.'] + word,
        is_regular(path@),
        ends_in_name(path@),
        front.len() > 0,
        !is_separator(front.last()),
        !word.contains('.'),
        !has_separator(word),
    ensures
        r <==> ascii_lower(word) != "html"@ && ascii_lower(word) != "htm"@ && ascii_lower(word)
            != "kml"@ && ascii_lower(word) != "txt"@ && ascii_lower(word) != "log"@,
{
    let ext = choose|ext: Option<Seq<char>>| #[trigger]
        extension_outcome(path@, ext) && r == is_uploaded(ext);
    written_extension_is_read(front, word, ext);
}

/// A directory that holds a picture is uploaded, where the credentials are there: the plan counts the
/// picture and holds it in one of its groups.
pub proof fn directories_with_tiles_are_uploaded(
    output_dir: &str,
    run_id: &str,
    config: OssUploadConfig,
    env: OssEnvironment,
    walked: Vec<String>,
    intermediates: Vec<String>,
    r: Result<UploadPlan, String>,
    front: Seq<char>,
    word: Seq<char>,
)
    requires
        call_ensures(
            upload_tiles_to_oss,
            (output_dir, run_id, &config, &env, &walked, &intermediates),
            r,
        ),
        config.access_key_id is Some || env.access_key_id is Some,
        config.access_key_secret is Some || env.access_key_secret is Some,
        word == "webp"@ || word == "jpg"@ || word == "jpeg"@,
        texts(walked@).contains(front + seq!['.'] + word),
        !among(front + seq!['.'] + word, texts(intermediates@), true),
        is_regular(front + seq!['.'] + word),
        ends_in_name(front + seq!['.'] + word),
        front.len() > 0,
        !is_separator(front.last()),
    ensures
        r matches Ok(plan) && plan.total > 0 && exists|g: int, i: int|
            0 <= g < plan.groups@.len() && 0 <= i < plan.groups@[g].files@.len()
                && #[trigger] plan.groups@[g].files@[i]@.file_path == front + seq!['.'] + word,
{
    every_tile_is_uploaded(
        output_dir@,
        run_id@,
        config,
        env,
        texts(walked@),
        texts(intermediates@),
        r,
        front,
        word,
    );
    upload_is_planned_for_all_files(
        output_dir@,
        run_id@,
        config,
        env,
        texts(walked@),
        texts(intermediates@),
        r,
    );
}

/// A file that was sent is reported with the number of files sent so far; one that failed is not.
pub proof fn sent_files_are_reported(
    tally: &mut UploadTally,
    rel_key: &str,
    outcome: Result<String, String>,
    r: Option<usize>,
)
    requires
        call_ensures(UploadTally::record, (tally, rel_key, outcome), r),
    ensures
        r is Some <==> outcome is Ok,
        r matches Some(n) ==> n == old(tally).uploaded_count + 1 && final(tally).uploaded_count == n,
        outcome is Err ==> final(tally).uploaded_count == old(tally).uploaded_count
            && final(tally).failures@.len() == old(tally).failures@.len() + 1,
{
    assert(final(tally)@.failures.len() == final(tally).failures@.len());
    assert(old(tally)@.failures.len() == old(tally).failures@.len());
}

} // verus!
