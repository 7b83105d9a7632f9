//! File paths as texts.
//!
//! How a path is read depends on the platform. Of the functions of `std::path` it is stated that
//! the result is the one of Unix or the one of Windows; the two are written out.

use crate::text::begins_with;
use crate::text::chars_of;
use crate::text::contains;
use crate::text::contains_char;
use crate::text::has_text;
use crate::text::lemma_split_by_nonempty;
use crate::text::lemma_split_concat;
use crate::text::lemma_split_single;
use crate::text::opt_text;
use crate::text::replaced;
use crate::text::same_text;
use crate::text::split_by;
use crate::text::text_at;
use crate::text::text_of;
use crate::text::trim;
use crate::text::trimmed;
use crate::text::upper_char;
use crate::text::CharClass;
use std::path::Path;
use vstd::prelude::*;

verus! {

/// A path that Unix and Windows read alike: it holds no backslash and no colon, and does not
/// begin with two slashes.
pub open spec fn portable(p: Seq<char>) -> bool {
    !p.contains('\\') && !p.contains(':') && !begins_with(p, seq!['/', '/'])
}

// The reading of Unix: slashes separate.

/// The text between separators names a file or a directory, or is `..`.
pub open spec fn is_segment(s: Seq<char>) -> bool {
    s.len() > 0 && s != seq!['.']
}

/// The pieces without empty ones and single dots.
pub open spec fn proper(pieces: Seq<Seq<char>>) -> Seq<Seq<char>> {
    pieces.filter(|s: Seq<char>| is_segment(s))
}

/// The pieces of a path between its slashes.
pub open spec fn pieces(p: Seq<char>) -> Seq<Seq<char>> {
    split_by(p, CharClass::Exactly('/'))
}

/// The parts of a path between its slashes, without empty ones and single dots.
pub open spec fn segments(p: Seq<char>) -> Seq<Seq<char>> {
    proper(pieces(p))
}

/// The components of a path: the root or a leading dot, then the segments.
pub open spec fn path_components(p: Seq<char>) -> Seq<Seq<char>> {
    if p.len() > 0 && p[0] == '/' {
        seq![seq!['/']] + segments(p)
    } else if pieces(p)[0] == seq!['.'] {
        seq![seq!['.']] + segments(p)
    } else {
        segments(p)
    }
}

/// The last of the segments, unless it is `..`.
pub open spec fn last_name(segs: Seq<Seq<char>>) -> Option<Seq<char>> {
    if segs.len() == 0 || segs.last() == seq!['.', '.'] {
        None
    } else {
        Some(segs.last())
    }
}

/// The file name of a path as Unix reads it.
pub open spec fn slash_name(p: Seq<char>) -> Option<Seq<char>> {
    last_name(segments(p))
}

/// The directory with the child behind it and a slash between the two where one is missing.
pub open spec fn slash_join(parent: Seq<char>, child: Seq<char>) -> Seq<char> {
    if parent.len() == 0 {
        child
    } else if parent.last() == '/' {
        parent + child
    } else {
        parent + seq!['/'] + child
    }
}

/// A relative path without empty parts and single dots.
pub open spec fn tidy(p: Seq<char>) -> bool {
    segments(p) == pieces(p)
}

// The reading of Windows: slashes and backslashes separate, and a path may begin with a drive or
// with the host and the share of a network path.

/// The character separates the parts of a path on some platform.
pub open spec fn is_separator(c: char) -> bool {
    c == '/' || c == '\\'
}

pub open spec fn has_separator(p: Seq<char>) -> bool {
    p.contains('/') || p.contains('\\')
}

/// The path with slashes in the place of backslashes.
pub open spec fn forward(p: Seq<char>) -> Seq<char> {
    replaced(p, '\\', '/')
}

/// The path begins with a drive, such as `C:`.
pub open spec fn has_drive(p: Seq<char>) -> bool {
    p.len() >= 2 && p[1] == ':' && ('a' <= p[0] <= 'z' || 'A' <= p[0] <= 'Z')
}

/// The path begins with two separators.
pub open spec fn two_separators(p: Seq<char>) -> bool {
    p.len() >= 2 && is_separator(p[0]) && is_separator(p[1])
}

/// The path begins with `\\?\`, behind which Windows takes it literally.
pub open spec fn is_verbatim(p: Seq<char>) -> bool {
    begins_with(p, seq!['\\', '\\', '?', '\\'])
}

/// The path is a network path: two separators, the name of a host and that of a share.
pub open spec fn has_share(p: Seq<char>) -> bool {
    let parts = pieces(forward(p));
    two_separators(p) && parts.len() >= 4 && parts[2].len() > 0 && parts[3].len() > 0
}

/// What the path begins with: a drive, a host and a share, or nothing.
pub open spec fn path_prefix(p: Seq<char>) -> Seq<char> {
    if has_drive(p) {
        p.take(2)
    } else if has_share(p) {
        let parts = pieces(forward(p));
        p.take((3 + parts[2].len() + parts[3].len()) as int)
    } else {
        Seq::empty()
    }
}

/// A path whose reading on Windows is stated: not a literal one, and with a host and a share where
/// it begins with two separators.
pub open spec fn is_regular(p: Seq<char>) -> bool {
    !is_verbatim(p) && (two_separators(p) ==> has_share(p))
}

/// The parts of a regular path between its separators, behind what it begins with.
pub open spec fn windows_segments(p: Seq<char>) -> Seq<Seq<char>> {
    if has_drive(p) {
        segments(forward(p).skip(2))
    } else if two_separators(p) {
        proper(pieces(forward(p)).skip(4))
    } else {
        segments(forward(p))
    }
}

/// The components of a regular path: what it begins with, the root or a leading dot, the segments.
pub open spec fn windows_components(p: Seq<char>) -> Seq<Seq<char>> {
    if has_drive(p) {
        seq![p.take(2)] + path_components(forward(p).skip(2))
    } else if two_separators(p) {
        seq![forward(path_prefix(p)), seq!['/']] + windows_segments(p)
    } else {
        path_components(forward(p))
    }
}

/// The directory with the child behind it, and a backslash between the two where a separator is
/// missing and the directory is no bare drive.
pub open spec fn backslash_join(parent: Seq<char>, child: Seq<char>) -> Seq<char> {
    if parent.len() == 0 {
        child
    } else if is_separator(parent.last()) || (has_drive(parent) && parent.len() == 2) {
        parent + child
    } else {
        parent + seq!['\\'] + child
    }
}

/// A path that can be put behind a directory on every platform: it is not empty, does not begin
/// with a separator, and has no drive.
pub open spec fn relative_child(c: Seq<char>) -> bool {
    c.len() > 0 && !is_separator(c[0]) && !has_drive(c)
}

// The functions of `std::path`.

/// What Windows makes of a join: a child with a drive, or a network path, takes the place of the
/// directory; a child that begins with one separator takes the place of all but what the directory
/// begins with; any other stands behind the directory. Literal directories are left open, and so
/// are a child with two leading separators that is no network path and, below an irregular
/// directory, a child with one.
pub open spec fn windows_joined(parent: Seq<char>, child: Seq<char>, r: Seq<char>) -> bool {
    ||| is_verbatim(parent)
    ||| if has_drive(child) {
        r == child
    } else if two_separators(child) {
        is_verbatim(child) || has_share(child) ==> r == child
    } else if child.len() > 0 && is_separator(child[0]) {
        is_regular(parent) ==> r == path_prefix(parent) + child
    } else {
        r == backslash_join(parent, child)
    }
}

/// What the joined path is. On Unix an absolute child takes the place of the directory, and any
/// other stands behind it.
pub open spec fn joined(parent: Seq<char>, child: Seq<char>, r: Seq<char>) -> bool {
    ||| r == if child.len() > 0 && child[0] == '/' {
        child
    } else {
        slash_join(parent, child)
    }
    ||| windows_joined(parent, child, r)
}

/// `std::path::Path::join`: the path of the child seen from the directory. What is claimed is
/// [`joined`]: the result is that of Unix or that of Windows.
#[verifier::external_body]
pub(crate) fn path_join(parent: &str, child: &str) -> (r: String)
    ensures
        joined(parent@, child@, r@),
{
    Path::new(parent).join(child).to_string_lossy().to_string()
}

/// What the file name of a path is: the last segment, as Unix or Windows reads the path.
pub open spec fn name_outcome(p: Seq<char>, r: Option<Seq<char>>) -> bool {
    r == slash_name(p) || (is_regular(p) ==> r == last_name(windows_segments(p)))
}

/// `std::path::Path::file_name`: the final component of the path, where that is a name. What is
/// claimed is [`name_outcome`]; irregular paths are left open.
#[verifier::external_body]
pub(crate) fn path_file_name(p: &str) -> (r: Option<String>)
    ensures
        name_outcome(p@, opt_text(r)),
{
    Path::new(p).file_name().and_then(|n| n.to_str()).map(|n| n.to_string())
}

/// What the directory of a path is on Unix: none for the empty path, the empty path for a single
/// name, the root for a name below it, and the directory in front of a slash and a name.
pub open spec fn slash_parent(p: Seq<char>, r: Option<Seq<char>>) -> bool {
    &&& p.len() == 0 ==> r is None
    &&& p.len() > 0 && !p.contains('/') ==> r == Some(Seq::<char>::empty())
    &&& forall|name: Seq<char>|
        p == #[trigger] (seq!['/'] + name) && is_segment(name) && !name.contains('/') ==> r == Some(
            seq!['/'],
        )
    &&& forall|dir: Seq<char>, name: Seq<char>|
        p == #[trigger] (dir + seq!['/'] + name) && dir.len() > 0 && dir.last() != '/' && !(
        dir.len() >= 2 && dir.last() == '.' && dir[dir.len() - 2] == '/') && is_segment(name)
            && !name.contains('/') ==> r == Some(dir)
}

/// The directory ends in no separator, and in no single dot behind a separator.
pub open spec fn plain_end(dir: Seq<char>) -> bool {
    &&& dir.len() > 0
    &&& !is_separator(dir.last())
    &&& !(dir.len() >= 2 && dir.last() == '.' && is_separator(dir[dir.len() - 2]))
}

/// What the directory of a regular path is on Windows. A drive or a share alone has none; a name
/// behind a bare drive has the drive. Otherwise it is as on Unix, with both separators, and a drive
/// or a share in front of a separator keeps that.
pub open spec fn windows_parent(p: Seq<char>, r: Option<Seq<char>>) -> bool {
    &&& p == path_prefix(p) ==> r is None
    &&& p != path_prefix(p) && !has_separator(p) ==> r == Some(path_prefix(p))
    &&& forall|sep: char, name: Seq<char>|
        p == #[trigger] (seq![sep] + name) && is_separator(sep) && is_segment(name)
            && !has_separator(name) ==> r == Some(seq![sep])
    &&& forall|dir: Seq<char>, sep: char, name: Seq<char>|
        p == #[trigger] (dir + seq![sep] + name) && is_separator(sep) && is_regular(dir)
            && plain_end(dir) && is_segment(name) && !has_separator(name) ==> r == Some(
            if dir == path_prefix(dir) {
                dir.push(sep)
            } else {
                dir
            },
        )
}

/// What the directory of a path is, as Unix or Windows reads the path.
pub open spec fn parent_outcome(p: Seq<char>, r: Option<Seq<char>>) -> bool {
    slash_parent(p, r) || (is_regular(p) ==> windows_parent(p, r))
}

/// `std::path::Path::parent`: the path without its final component. What is claimed is
/// [`parent_outcome`]; irregular paths are left open, and so is the text of the directory where
/// separators or single dots stand next to one another at its end.
#[verifier::external_body]
pub(crate) fn path_parent(p: &str) -> (r: Option<String>)
    ensures
        parent_outcome(p@, opt_text(r)),
{
    Path::new(p).parent().map(|d| d.to_string_lossy().to_string())
}

/// What is left of a path behind a base directory on Unix: something exactly where the components
/// of the base are the first components of the path, and then the other components. A tidy path
/// behind the base is left as it was written.
pub open spec fn slash_stripped(p: Seq<char>, base: Seq<char>, r: Option<Seq<char>>) -> bool {
    &&& r is Some <==> path_components(base).is_prefix_of(path_components(p))
    &&& r is Some ==> path_components(p) == path_components(base) + path_components(r->0)
    &&& forall|rest: Seq<char>|
        base.len() > 0 && tidy(rest) && p == #[trigger] slash_join(base, rest) ==> r == Some(rest)
}

/// The drives of the two paths are not the same letter in different case.
pub open spec fn same_drive_case(a: Seq<char>, b: Seq<char>) -> bool {
    has_drive(a) && has_drive(b) && upper_char(a[0]) == upper_char(b[0]) ==> a[0] == b[0]
}

/// What is left of a regular path behind a regular base directory on Windows; stated as for Unix,
/// with both separators. Drives that differ only in case are left open.
pub open spec fn windows_stripped(p: Seq<char>, base: Seq<char>, r: Option<Seq<char>>) -> bool {
    &&& base.len() > 0 && same_drive_case(p, base) ==> {
        &&& r is Some <==> windows_components(base).is_prefix_of(windows_components(p))
        &&& r is Some ==> windows_components(p) == windows_components(base) + path_components(
            forward(r->0),
        )
    }
    &&& forall|sep: char, rest: Seq<char>|
        base.len() > 0 && !is_separator(base.last()) && !(has_drive(base) && base.len() == 2)
            && is_separator(sep) && tidy(forward(rest)) && p == #[trigger] (base + seq![sep] + rest)
            ==> r == Some(rest)
    &&& forall|rest: Seq<char>|
        base.len() > 0 && is_separator(base.last()) && tidy(forward(rest)) && p == #[trigger] (base
            + rest) ==> r == Some(rest)
}

/// What is left of a path behind a base directory, as Unix or Windows reads the two.
pub open spec fn strip_outcome(p: Seq<char>, base: Seq<char>, r: Option<Seq<char>>) -> bool {
    ||| slash_stripped(p, base, r)
    ||| is_regular(p) && is_regular(base) ==> windows_stripped(p, base, r)
}

/// `std::path::Path::strip_prefix`: the path seen from the base directory. What is claimed is
/// [`strip_outcome`]; irregular paths are left open.
#[verifier::external_body]
pub(crate) fn path_strip_prefix(p: &str, base: &str) -> (r: Option<String>)
    ensures
        strip_outcome(p@, base@, opt_text(r)),
{
    Path::new(p).strip_prefix(base).ok().map(|d| d.to_string_lossy().to_string())
}

/// Whether two paths are the same: those with the same text are, and others where they have the
/// same components, as Unix or Windows reads the two. On Windows it is left open for irregular paths
/// and for drives that differ only in case.
pub open spec fn same_path_outcome(a: Seq<char>, b: Seq<char>, same: bool) -> bool {
    &&& a == b ==> same
    &&& {
        ||| same == (path_components(a) == path_components(b))
        ||| is_regular(a) && is_regular(b) && same_drive_case(a, b) ==> same == (
        windows_components(a) == windows_components(b))
    }
}

proof fn lemma_first_piece(p: Seq<char>)
    requires
        p.len() > 0,
        p[0] != '/',
    ensures
        pieces(p).len() > 0,
        pieces(p)[0].len() > 0,
    decreases p.len(),
{
    let k = CharClass::Exactly('/');
    let head = p.drop_last();
    lemma_split_by_nonempty(head, k);
    if head.len() > 0 {
        lemma_first_piece(head);
    }
}

proof fn lemma_some_component(p: Seq<char>)
    ensures
        path_components(p).len() == 0 <==> p.len() == 0,
{
    if p.len() == 0 {
        assert(p =~= Seq::<char>::empty());
        lemma_no_components();
    } else if p[0] != '/' {
        lemma_first_piece(p);
        let parts = pieces(p);
        if parts[0] != seq!['.'] {
            let rest = parts.drop_first();
            let keep = |s: Seq<char>| is_segment(s);
            Seq::filter_distributes_over_add(seq![parts[0]], rest, keep);
            assert(seq![parts[0]] + rest =~= parts);
            lemma_proper_last(seq![parts[0]]);
        }
    }
}

/// Whether two paths are the same, whatever their separators and single dots look like.
pub fn same_path(a: &str, b: &str) -> (r: bool)
    ensures
        same_path_outcome(a@, b@, r),
{
    if same_text(a, b) {
        return true;
    }
    proof {
        lemma_some_component(a@);
        lemma_some_component(b@);
    }
    if b.is_empty() {
        assert(a@.len() > 0) by {
            if a@.len() == 0 {
                assert(a@ =~= b@);
            }
        }
        return false;
    }
    let rest = path_strip_prefix(a, b);
    let ghost below = opt_text(rest);
    proof {
        lemma_same_components(a@, b@, below);
    }
    match rest {
        Some(rest) => rest.as_str().is_empty(),
        None => false,
    }
}

proof fn lemma_same_components(a: Seq<char>, b: Seq<char>, below: Option<Seq<char>>)
    requires
        strip_outcome(a, b, below),
        b.len() > 0,
        a != b,
    ensures
        same_path_outcome(a, b, below matches Some(rest) && rest.len() == 0),
{
    if below is Some {
        lemma_some_component(below->0);
        lemma_some_component(forward(below->0));
    }
    let none = Seq::<Seq<char>>::empty();
    if slash_stripped(a, b, below) {
        lemma_prefix_and_rest(
            path_components(a),
            path_components(b),
            below is Some,
            if below is Some {
                path_components(below->0)
            } else {
                none
            },
        );
    } else if is_regular(a) && is_regular(b) && same_drive_case(a, b) {
        lemma_prefix_and_rest(
            windows_components(a),
            windows_components(b),
            below is Some,
            if below is Some {
                path_components(forward(below->0))
            } else {
                none
            },
        );
    }
}

proof fn lemma_prefix_and_rest(
    all: Seq<Seq<char>>,
    front: Seq<Seq<char>>,
    found: bool,
    rest: Seq<Seq<char>>,
)
    requires
        found <==> front.is_prefix_of(all),
        found ==> all == front + rest,
    ensures
        (found && rest.len() == 0) <==> all == front,
{
    if found && rest.len() == 0 {
        assert(front + rest =~= front);
    }
    if all == front {
        assert(front.is_prefix_of(all));
        assert((front + rest).len() == front.len() + rest.len());
    }
}

/// Where the last dot of the text stands.
pub open spec fn last_dot(s: Seq<char>) -> Option<int>
    decreases s.len(),
{
    if s.len() == 0 {
        None
    } else if s.last() == '.' {
        Some(s.len() - 1)
    } else {
        last_dot(s.drop_last())
    }
}

/// What stands behind the last dot of a file name, unless that dot is its first character.
pub open spec fn extension_of(name: Seq<char>) -> Option<Seq<char>> {
    match last_dot(name) {
        Some(i) => if i > 0 && name != seq!['.', '.'] {
            Some(name.skip(i + 1))
        } else {
            None
        },
        None => None,
    }
}

/// What stands before the last dot of a file name, or the whole name where the dot is missing or
/// is its first character.
pub open spec fn stem_of(name: Seq<char>) -> Seq<char> {
    match last_dot(name) {
        Some(i) => if i > 0 && name != seq!['.', '.'] {
            name.take(i)
        } else {
            name
        },
        None => name,
    }
}

/// The extension of the last segment of a portable path.
pub open spec fn portable_extension(p: Seq<char>) -> Option<Seq<char>> {
    match slash_name(p) {
        Some(name) => extension_of(name),
        None => None,
    }
}

/// The stem of the last segment of a portable path.
pub open spec fn portable_stem(p: Seq<char>) -> Option<Seq<char>> {
    match slash_name(p) {
        Some(name) => Some(stem_of(name)),
        None => None,
    }
}

fn find_last_dot(v: &Vec<char>) -> (r: Option<usize>)
    ensures
        match r {
            Some(i) => i < v.len() && last_dot(v@) == Some(i as int),
            None => last_dot(v@) is None,
        },
{
    let mut j: usize = v.len();
    assert(v@.take(v@.len() as int) == v@);
    while j > 0
        invariant
            j <= v.len(),
            last_dot(v@) == last_dot(v@.take(j as int)),
        decreases j,
    {
        assert(v@.take(j as int).last() == v@[j - 1]);
        assert(v@.take(j as int).drop_last() == v@.take(j - 1));
        if v[j - 1] == '.' {
            return Some(j - 1);
        }
        j -= 1;
    }
    None
}

fn is_dot_dot(v: &Vec<char>) -> (r: bool)
    ensures
        r == (v@ == seq!['.', '.']),
{
    if v.len() == 2 && v[0] == '.' && v[1] == '.' {
        assert(v@ == seq!['.', '.']);
        true
    } else {
        assert(v@ == seq!['.', '.'] ==> v@.len() == 2 && v@[0] == '.' && v@[1] == '.');
        false
    }
}

/// The extension of a file name.
pub fn extension_of_name(name: &str) -> (r: Option<String>)
    ensures
        opt_text(r) == extension_of(name@),
{
    let v = chars_of(name);
    match find_last_dot(&v) {
        Some(i) => {
            if i > 0 && !is_dot_dot(&v) {
                assert(v@.subrange(i + 1, v@.len() as int) == v@.skip(i + 1));
                Some(text_of(&v, i + 1, v.len()))
            } else {
                None
            }
        },
        None => None,
    }
}

/// The stem of a file name.
pub fn stem_of_name(name: &str) -> (r: String)
    ensures
        r@ == stem_of(name@),
{
    let v = chars_of(name);
    match find_last_dot(&v) {
        Some(i) => {
            if i > 0 && !is_dot_dot(&v) {
                assert(v@.subrange(0, i as int) == v@.take(i as int));
                text_of(&v, 0, i)
            } else {
                name.to_string()
            }
        },
        None => name.to_string(),
    }
}

/// The extension of an optional file name.
pub open spec fn name_extension(name: Option<Seq<char>>) -> Option<Seq<char>> {
    match name {
        Some(n) => extension_of(n),
        None => None,
    }
}

/// The extension is that of the file name of the path.
pub open spec fn extension_outcome(p: Seq<char>, ext: Option<Seq<char>>) -> bool {
    exists|name: Option<Seq<char>>| #[trigger] name_outcome(p, name) && ext == name_extension(name)
}

/// The stem of an optional file name.
pub open spec fn name_stem(name: Option<Seq<char>>) -> Option<Seq<char>> {
    match name {
        Some(n) => Some(stem_of(n)),
        None => None,
    }
}

/// The stem is that of the file name of the path.
pub open spec fn stem_outcome(p: Seq<char>, stem: Option<Seq<char>>) -> bool {
    exists|name: Option<Seq<char>>| #[trigger] name_outcome(p, name) && stem == name_stem(name)
}

/// The extension of the file that the path names.
pub fn extension(p: &str) -> (r: Option<String>)
    ensures
        extension_outcome(p@, opt_text(r)),
{
    let name = path_file_name(p);
    assert(name_outcome(p@, opt_text(name)));
    match name {
        Some(name) => extension_of_name(name.as_str()),
        None => None,
    }
}

/// The stem of the file that the path names.
pub fn file_stem(p: &str) -> (r: Option<String>)
    ensures
        stem_outcome(p@, opt_text(r)),
{
    let name = path_file_name(p);
    assert(name_outcome(p@, opt_text(name)));
    match name {
        Some(name) => Some(stem_of_name(name.as_str())),
        None => None,
    }
}

proof fn lemma_portable_readings(p: Seq<char>)
    requires
        portable(p),
    ensures
        forward(p) == p,
        is_regular(p),
        !has_drive(p),
        !two_separators(p),
        windows_segments(p) == segments(p),
{
    assert forall|i: int| 0 <= i < p.len() implies p[i] != '\\' && p[i] != ':' by {
        assert(p.contains(p[i]));
    }
    assert(forward(p) =~= p);
    if two_separators(p) {
        assert(p.subrange(0, 2) =~= seq!['/', '/']);
    }
    if is_verbatim(p) {
        assert(p.subrange(0, 4)[0] == '\\');
    }
}

/// Of a portable path, extension and stem are those of its last segment.
pub proof fn portable_names_are_known(
    p: Seq<char>,
    ext: Option<Seq<char>>,
    stem: Option<Seq<char>>,
)
    requires
        portable(p),
        extension_outcome(p, ext),
        stem_outcome(p, stem),
    ensures
        ext == portable_extension(p),
        stem == portable_stem(p),
{
    lemma_portable_readings(p);
}

/// Portable paths are the same if and only if they have the same components.
pub proof fn portable_paths_are_known(a: Seq<char>, b: Seq<char>, same: bool)
    requires
        portable(a),
        portable(b),
        same_path_outcome(a, b, same),
    ensures
        same == (path_components(a) == path_components(b)),
{
    lemma_portable_readings(a);
    lemma_portable_readings(b);
}

/// A tidy path does not begin with a slash.
pub proof fn tidy_path_is_relative(p: Seq<char>)
    requires
        tidy(p),
    ensures
        p.len() > 0,
        p[0] != '/',
{
    let k = CharClass::Exactly('/');
    let parts = split_by(p, k);
    lemma_split_by_nonempty(p, k);
    let keep = |s: Seq<char>| is_segment(s);
    parts.lemma_filter_pred(keep, 0);
    assert(is_segment(parts[0]));
    if p.len() > 0 && p[0] == '/' {
        let none = Seq::<char>::empty();
        lemma_split_concat(none, '/', p.skip(1), k);
        assert(none + seq!['/'] + p.skip(1) =~= p);
        assert(parts[0] == split_by(none, k)[0]);
    }
}

proof fn lemma_last_dot(s: Seq<char>)
    ensures
        last_dot(s) matches Some(i) ==> 0 <= i < s.len() && s[i] == '.',
        last_dot(s) is None ==> !s.contains('.'),
    decreases s.len(),
{
    if s.len() > 0 && s.last() != '.' {
        lemma_last_dot(s.drop_last());
        if last_dot(s) is None && s.contains('.') {
            let i = choose|i: int| 0 <= i < s.len() && s[i] == '.';
            assert(s.drop_last()[i] == '.');
        }
    }
}

proof fn lemma_last_dot_behind(front: Seq<char>, s: Seq<char>)
    requires
        last_dot(s) is Some,
    ensures
        last_dot(front + s) == Some(front.len() + last_dot(s)->Some_0),
    decreases s.len(),
{
    assert((front + s).last() == s.last());
    if s.last() != '.' {
        assert((front + s).drop_last() =~= front + s.drop_last());
        lemma_last_dot_behind(front, s.drop_last());
    }
}

/// What follows the last slash of a path.
pub open spec fn after_slash(p: Seq<char>) -> Seq<char>
    decreases p.len(),
{
    if p.len() == 0 || p.last() == '/' {
        Seq::empty()
    } else {
        after_slash(p.drop_last()).push(p.last())
    }
}

/// What follows the last slash or backslash of a path.
pub open spec fn after_separator(p: Seq<char>) -> Seq<char>
    decreases p.len(),
{
    if p.len() == 0 || is_separator(p.last()) {
        Seq::empty()
    } else {
        after_separator(p.drop_last()).push(p.last())
    }
}

proof fn lemma_after_separator(p: Seq<char>) -> (front: Seq<char>)
    ensures
        after_slash(p) == front + after_separator(p),
    decreases p.len(),
{
    if p.len() == 0 || p.last() == '/' {
        assert(after_slash(p) =~= Seq::<char>::empty() + after_separator(p));
        Seq::empty()
    } else if p.last() == '\\' {
        assert(after_slash(p) =~= after_slash(p) + after_separator(p));
        after_slash(p)
    } else {
        let front = lemma_after_separator(p.drop_last());
        assert(after_slash(p) =~= front + after_separator(p));
        front
    }
}

proof fn lemma_last_piece(p: Seq<char>)
    ensures
        pieces(p).len() > 0,
        pieces(p).last() == after_slash(p),
    decreases p.len(),
{
    lemma_split_by_nonempty(p, CharClass::Exactly('/'));
    if p.len() > 0 {
        lemma_last_piece(p.drop_last());
    }
}

proof fn lemma_forward(p: Seq<char>)
    ensures
        after_slash(forward(p)) == after_separator(p),
    decreases p.len(),
{
    if p.len() > 0 {
        lemma_forward(p.drop_last());
        assert(forward(p).drop_last() =~= forward(p.drop_last()));
    }
}

proof fn lemma_after_slash_of_rest(p: Seq<char>, n: int)
    requires
        0 <= n <= p.len(),
        after_slash(p).len() <= p.len() - n,
    ensures
        after_slash(p.skip(n)) == after_slash(p),
    decreases p.len(),
{
    if p.len() > n {
        if p.last() != '/' {
            assert(p.skip(n).drop_last() =~= p.drop_last().skip(n));
            lemma_after_slash_of_rest(p.drop_last(), n);
        }
    } else {
        assert(p.skip(n) =~= Seq::<char>::empty());
    }
}

proof fn lemma_after_slash_len(p: Seq<char>)
    ensures
        after_slash(p).len() <= p.len(),
        after_slash(p).len() == p.len() ==> after_slash(p) == p,
        after_slash(p).len() < p.len() ==> p[p.len() - after_slash(p).len() - 1] == '/',
    decreases p.len(),
{
    if p.len() > 0 && p.last() != '/' {
        lemma_after_slash_len(p.drop_last());
        if after_slash(p).len() == p.len() {
            assert(after_slash(p) =~= p);
        }
    }
}

proof fn lemma_proper_last(parts: Seq<Seq<char>>)
    requires
        parts.len() > 0,
        is_segment(parts.last()),
    ensures
        proper(parts).len() > 0,
        proper(parts).last() == parts.last(),
{
    reveal(Seq::filter);
}

/// Behind what the path begins with, a name follows its last separator.
pub open spec fn ends_in_name(p: Seq<char>) -> bool {
    &&& is_segment(after_separator(p))
    &&& after_separator(p) != seq!['.', '.']
    &&& has_drive(p) ==> after_separator(p) != p
    &&& two_separators(p) ==> pieces(forward(p)).len() > 4
}

/// On every platform the file name of a regular path is what follows its last separator, and
/// whether a backslash is one is up to the platform.
pub proof fn name_follows_the_last_separator(p: Seq<char>, name: Option<Seq<char>>)
    requires
        name_outcome(p, name),
        is_regular(p),
        ends_in_name(p),
    ensures
        name == Some(after_separator(p)) || name == Some(after_slash(p)),
{
    let t = after_separator(p);
    let q = forward(p);
    lemma_last_piece(p);
    lemma_last_piece(q);
    lemma_forward(p);
    let front = lemma_after_separator(p);
    let whole = after_slash(p);
    if name == slash_name(p) {
        assert(whole.len() == front.len() + t.len());
        if whole == seq!['.'] {
            assert(whole.len() == 1);
            assert(t =~= whole);
        }
        if whole == seq!['.', '.'] {
            assert(whole.len() == 2);
            assert(t =~= whole || t =~= seq!['.']);
        }
        lemma_proper_last(pieces(p));
    } else if has_drive(p) {
        lemma_after_slash_len(q);
        if t.len() == p.len() {
            assert(t == q);
            assert(q =~= p) by {
                assert(forall|i: int| 0 <= i < q.len() ==> (p[i] == '\\' ==> q[i] == '/'));
                lemma_no_slash_behind(q);
                assert forall|i: int| 0 <= i < q.len() implies q[i] == p[i] by {
                    assert(q[i] != '/');
                }
            }
        }
        if t.len() == p.len() - 1 {
            assert(q[0] == '/');
        }
        lemma_after_slash_of_rest(q, 2);
        lemma_last_piece(q.skip(2));
        lemma_proper_last(pieces(q.skip(2)));
    } else if two_separators(p) {
        let rest = pieces(q).skip(4);
        assert(rest.last() == pieces(q).last());
        lemma_proper_last(rest);
    } else {
        lemma_proper_last(pieces(q));
    }
}

proof fn lemma_no_slash_behind(p: Seq<char>)
    ensures
        forall|i: int| 0 <= i < after_slash(p).len() ==> #[trigger] after_slash(p)[i] != '/',
    decreases p.len(),
{
    if p.len() > 0 && p.last() != '/' {
        lemma_no_slash_behind(p.drop_last());
        let before = after_slash(p.drop_last());
        assert forall|i: int| 0 <= i < after_slash(p).len() implies #[trigger] after_slash(p)[i]
            != '/' by {
            if i < before.len() {
                assert(after_slash(p)[i] == before[i]);
            }
        }
    }
}

/// On every platform, the extension of a regular path whose last part has a dot inside it is what
/// follows the last dot.
pub proof fn extension_follows_the_last_dot(p: Seq<char>, ext: Option<Seq<char>>)
    requires
        extension_outcome(p, ext),
        is_regular(p),
        ends_in_name(p),
        last_dot(after_separator(p)) matches Some(i) && i > 0,
    ensures
        ext == extension_of(after_separator(p)),
        ext is Some,
{
    let name = choose|name: Option<Seq<char>>| #[trigger]
        name_outcome(p, name) && ext == name_extension(name);
    name_follows_the_last_separator(p, name);
    let t = after_separator(p);
    let i = last_dot(t)->Some_0;
    lemma_last_dot(t);
    let front = lemma_after_separator(p);
    lemma_last_dot_behind(front, t);
    let whole = after_slash(p);
    assert(whole.skip(front.len() + i + 1) =~= t.skip(i + 1));
    if whole == seq!['.', '.'] {
        assert(whole.len() == 2);
        assert(t =~= whole || t.len() < 2);
    }
}

/// On every platform, a regular path without a dot behind its last slash has no extension.
pub proof fn no_dot_means_no_extension(p: Seq<char>, ext: Option<Seq<char>>)
    requires
        extension_outcome(p, ext),
        is_regular(p),
        ends_in_name(p),
        !after_slash(p).contains('.'),
    ensures
        ext is None,
{
    let name = choose|name: Option<Seq<char>>| #[trigger]
        name_outcome(p, name) && ext == name_extension(name);
    name_follows_the_last_separator(p, name);
    let t = after_separator(p);
    let whole = after_slash(p);
    let front = lemma_after_separator(p);
    lemma_last_dot(t);
    lemma_last_dot(whole);
    assert(!t.contains('.')) by {
        if t.contains('.') {
            let i = choose|i: int| 0 <= i < t.len() && t[i] == '.';
            assert(whole[front.len() + i] == '.');
        }
    }
    if last_dot(whole) is Some {
        assert(whole.contains('.'));
    }
    if last_dot(t) is Some {
        assert(t.contains('.'));
    }
}

/// The name can be the name of one directory: white space around it does not count, it is not
/// empty, and it holds no separator and no two dots in a row.
pub open spec fn legal_child(child: Seq<char>) -> bool {
    let t = trimmed(child);
    t.len() > 0 && !t.contains('/') && !t.contains('\\') && !has_text(t, ".."@)
}

/// The path of a directory directly below `parent`, or an error where the name is not legal.
pub fn join_path(parent: &str, child: &str) -> (r: Result<String, String>)
    ensures
        r is Ok <==> legal_child(child@),
        r matches Ok(p) ==> joined(parent@, trimmed(child@), p@),
        r matches Err(e) ==> e@ == "非法子目录名"@,
{
    let name = trim(child);
    if name.as_str().is_empty() || contains_char(name.as_str(), '/') || contains_char(
        name.as_str(),
        '\\',
    ) || contains(name.as_str(), "..") {
        return Err("非法子目录名".to_string());
    }
    Ok(path_join(parent, name.as_str()))
}

proof fn lemma_one_segment(c: Seq<char>)
    requires
        !c.contains('/'),
        is_segment(c),
    ensures
        split_by(c, CharClass::Exactly('/')) == seq![c],
        segments(c) == seq![c],
{
    assert forall|i: int| 0 <= i < c.len() implies !CharClass::Exactly('/').has(#[trigger] c[i]) by {
        assert(c.contains(c[i]));
    }
    lemma_split_single(c, CharClass::Exactly('/'));
    let keep = |s: Seq<char>| is_segment(s);
    reveal(Seq::filter);
    assert(seq![c].drop_last() == Seq::<Seq<char>>::empty());
    assert(seq![c].drop_last().filter(keep) == Seq::<Seq<char>>::empty());
    assert(seq![c].filter(keep) =~= seq![c]);
}

/// A relative path that is joined to a directory stands behind it, with a separator of the platform
/// between the two where one is missing.
pub proof fn relative_child_stands_behind(parent: Seq<char>, child: Seq<char>, r: Seq<char>)
    requires
        joined(parent, child, r),
        relative_child(child),
        !is_verbatim(parent),
    ensures
        r == slash_join(parent, child) || r == backslash_join(parent, child),
{
}

proof fn lemma_one_more_segment(a: Seq<char>, c: Seq<char>)
    requires
        !c.contains('/'),
        is_segment(c),
    ensures
        segments(a + seq!['/'] + c) == segments(a).push(c),
        pieces(a + seq!['/'] + c)[0] == pieces(a)[0],
{
    let k = CharClass::Exactly('/');
    let keep = |s: Seq<char>| is_segment(s);
    lemma_one_segment(c);
    lemma_split_concat(a, '/', c, k);
    lemma_split_by_nonempty(a, k);
    Seq::filter_distributes_over_add(pieces(a), seq![c], keep);
    assert(proper(seq![c]) == seq![c]);
    assert(segments(a) + seq![c] =~= segments(a).push(c));
}

proof fn lemma_no_more_segment(a: Seq<char>)
    ensures
        segments(a + seq!['/']) == segments(a),
        pieces(a + seq!['/'])[0] == pieces(a)[0],
{
    let k = CharClass::Exactly('/');
    let keep = |s: Seq<char>| is_segment(s);
    let none = Seq::<char>::empty();
    lemma_split_concat(a, '/', none, k);
    lemma_split_by_nonempty(a, k);
    assert(a + seq!['/'] + none =~= a + seq!['/']);
    Seq::filter_distributes_over_add(pieces(a), seq![none], keep);
    assert(seq![none].filter(keep) =~= Seq::<Seq<char>>::empty()) by {
        reveal(Seq::filter);
        assert(seq![none].drop_last() =~= Seq::<Seq<char>>::empty());
        assert(seq![none].drop_last().filter(keep) =~= Seq::<Seq<char>>::empty());
    }
    assert(segments(a) + Seq::<Seq<char>>::empty() =~= segments(a));
}

proof fn lemma_no_components()
    ensures
        path_components(Seq::<char>::empty()) == Seq::<Seq<char>>::empty(),
{
    let none = Seq::<char>::empty();
    let keep = |s: Seq<char>| is_segment(s);
    reveal(Seq::filter);
    assert(seq![none].drop_last() =~= Seq::<Seq<char>>::empty());
    assert(seq![none].drop_last().filter(keep) =~= Seq::<Seq<char>>::empty());
    assert(segments(none) =~= Seq::<Seq<char>>::empty());
}

proof fn lemma_one_more_component(parent: Seq<char>, c: Seq<char>)
    requires
        !c.contains('/'),
        is_segment(c),
    ensures
        path_components(slash_join(parent, c)) == path_components(parent).push(c),
{
    if parent.len() == 0 {
        assert(parent =~= Seq::<char>::empty());
        lemma_no_components();
        lemma_one_segment(c);
        assert(c[0] != '/') by {
            assert(c.contains(c[0]));
        }
        assert(seq![c] =~= Seq::<Seq<char>>::empty().push(c));
    } else {
        let r = slash_join(parent, c);
        let a = if parent.last() == '/' {
            parent.drop_last()
        } else {
            parent
        };
        assert(r =~= a + seq!['/'] + c);
        lemma_one_more_segment(a, c);
        if parent.last() == '/' {
            assert(parent =~= a + seq!['/']);
            lemma_no_more_segment(a);
        }
        assert(r[0] == parent[0]);
        assert(path_components(r) =~= path_components(parent).push(c));
    }
}

proof fn lemma_legal_child(child: Seq<char>)
    requires
        legal_child(child),
    ensures
        trimmed(child)[0] != '/',
        trimmed(child)[0] != '\\',
        trimmed(child) != seq!['.', '.'],
        forward(trimmed(child)) == trimmed(child),
{
    let c = trimmed(child);
    assert forall|i: int| 0 <= i < c.len() implies c[i] != '/' && c[i] != '\\' by {
        assert(c.contains(c[i]));
    }
    assert(forward(c) =~= c);
    reveal_strlit("..");
    if c == seq!['.', '.'] {
        assert(c.subrange(0, 2) =~= ".."@);
        assert(text_at(c, ".."@, 0));
    }
}

proof fn lemma_forward_join(parent: Seq<char>, c: Seq<char>)
    requires
        forward(c) == c,
        !(has_drive(parent) && parent.len() == 2),
    ensures
        forward(backslash_join(parent, c)) == slash_join(forward(parent), c),
{
    assert(forward(backslash_join(parent, c)) =~= slash_join(forward(parent), c)) by {
        if parent.len() > 0 {
            assert(forward(parent).last() == '/' <==> is_separator(parent.last()));
            assert forall|i: int| 0 <= i < c.len() implies c[i] != '\\' by {
                assert(forward(c)[i] == c[i]);
            }
        }
    }
}

proof fn lemma_join_below_drive(parent: Seq<char>, c: Seq<char>)
    requires
        has_drive(parent),
        !c.contains('/'),
        is_segment(c),
        forward(c) == c,
    ensures
        is_regular(backslash_join(parent, c)),
        windows_components(backslash_join(parent, c)) == windows_components(parent).push(c),
{
    let r = backslash_join(parent, c);
    let below = forward(parent).skip(2);
    assert(r[0] == parent[0] && r[1] == ':');
    if is_verbatim(r) {
        assert(r.subrange(0, 4)[1] == ':');
    }
    assert(r.take(2) =~= parent.take(2));
    if parent.len() == 2 {
        assert(below =~= Seq::<char>::empty());
        assert(forward(r).skip(2) =~= forward(c));
    } else {
        lemma_forward_join(parent, c);
        assert(below.last() == forward(parent).last());
        assert(forward(r).skip(2) =~= slash_join(below, c));
    }
    lemma_one_more_component(below, c);
    assert(windows_components(r) =~= windows_components(parent).push(c));
}

proof fn lemma_pieces_of_join(q: Seq<char>, c: Seq<char>)
    requires
        q.len() > 0,
        !c.contains('/'),
        is_segment(c),
    ensures
        pieces(slash_join(q, c)) == if q.last() == '/' {
            pieces(q.drop_last()).push(c)
        } else {
            pieces(q).push(c)
        },
        q.last() == '/' ==> pieces(q) == pieces(q.drop_last()).push(Seq::<char>::empty()),
{
    let k = CharClass::Exactly('/');
    lemma_one_segment(c);
    if q.last() == '/' {
        let a = q.drop_last();
        assert(a + seq!['/'] + c =~= slash_join(q, c));
        lemma_split_concat(a, '/', c, k);
        assert(pieces(a) + seq![c] =~= pieces(a).push(c));
    } else {
        lemma_split_concat(q, '/', c, k);
        assert(pieces(q) + seq![c] =~= pieces(q).push(c));
    }
}

proof fn lemma_proper_push(parts: Seq<Seq<char>>, c: Seq<char>)
    ensures
        proper(parts.push(c)) == if is_segment(c) {
            proper(parts).push(c)
        } else {
            proper(parts)
        },
{
    reveal(Seq::filter);
    assert(parts.push(c).drop_last() =~= parts);
}

spec fn total_len(parts: Seq<Seq<char>>) -> nat
    decreases parts.len(),
{
    if parts.len() == 0 {
        0
    } else {
        total_len(parts.drop_last()) + parts.last().len()
    }
}

proof fn lemma_pieces_fit(q: Seq<char>, n: int)
    requires
        0 <= n < pieces(q).len(),
    ensures
        total_len(pieces(q).take(n + 1)) + n <= q.len(),
    decreases q.len(),
{
    reveal_with_fuel(total_len, 2);
    lemma_split_by_nonempty(q, CharClass::Exactly('/'));
    if q.len() == 0 {
        assert(pieces(q).take(1).drop_last() =~= Seq::<Seq<char>>::empty());
    } else {
        let head = q.drop_last();
        let before = pieces(head);
        lemma_split_by_nonempty(head, CharClass::Exactly('/'));
        if q.last() == '/' {
            assert(pieces(q) == before.push(Seq::<char>::empty()));
            if n < before.len() {
                lemma_pieces_fit(head, n);
                assert(pieces(q).take(n + 1) =~= before.take(n + 1));
            } else {
                lemma_pieces_fit(head, n - 1);
                assert(pieces(q).take(n + 1).drop_last() =~= before.take(n));
            }
        } else if n < before.len() - 1 {
            lemma_pieces_fit(head, n);
            assert(pieces(q).take(n + 1) =~= before.take(n + 1));
        } else {
            lemma_pieces_fit(head, n);
            assert(pieces(q).take(n + 1).drop_last() =~= before.take(n + 1).drop_last());
            assert(pieces(q).take(n + 1).last().len() == before.take(n + 1).last().len() + 1);
        }
    }
}

proof fn lemma_share_fits(p: Seq<char>)
    requires
        has_share(p),
    ensures
        path_prefix(p).len() <= p.len(),
        3 + pieces(forward(p))[2].len() + pieces(forward(p))[3].len() <= p.len(),
        p.len() >= 5,
{
    let parts = pieces(forward(p));
    lemma_pieces_fit(forward(p), 3);
    let four = parts.take(4);
    reveal_with_fuel(total_len, 3);
    assert(four.drop_last().drop_last() =~= parts.take(2));
    assert(total_len(four) == total_len(parts.take(2)) + parts[2].len() + parts[3].len()) by {
        assert(four.last() == parts[3]);
        assert(four.drop_last().last() == parts[2]);
    }
}

proof fn lemma_join_below_share(parent: Seq<char>, c: Seq<char>)
    requires
        has_share(parent),
        !is_verbatim(parent),
        !c.contains('/'),
        is_segment(c),
        forward(c) == c,
    ensures
        is_regular(backslash_join(parent, c)),
        windows_components(backslash_join(parent, c)) == windows_components(parent).push(c),
{
    let r = backslash_join(parent, c);
    let q = forward(parent);
    let below = pieces(q);
    lemma_forward_join(parent, c);
    lemma_pieces_of_join(q, c);
    let base = if q.last() == '/' {
        pieces(q.drop_last())
    } else {
        below
    };
    assert(base.len() >= 4);
    assert(pieces(forward(r)) == base.push(c));
    assert(base.take(4) =~= below.take(4));
    assert(base[2] == below.take(4)[2] && base[3] == below.take(4)[3]);
    assert(pieces(forward(r))[2] == below[2] && pieces(forward(r))[3] == below[3]);
    assert(has_share(r));
    lemma_share_fits(parent);
    assert(path_prefix(r) =~= path_prefix(parent));
    if is_verbatim(r) {
        assert(parent.subrange(0, 4) =~= r.subrange(0, 4));
    }
    assert(base.push(c).skip(4) =~= base.skip(4).push(c));
    lemma_proper_push(base.skip(4), c);
    if q.last() == '/' {
        assert(below.skip(4) =~= base.skip(4).push(Seq::<char>::empty()));
        lemma_proper_push(base.skip(4), Seq::<char>::empty());
    }
    assert(windows_segments(r) == windows_segments(parent).push(c));
    assert(windows_components(r) =~= windows_components(parent).push(c));
}

proof fn lemma_join_below_directory(parent: Seq<char>, c: Seq<char>)
    requires
        !has_drive(parent),
        !two_separators(parent),
        !c.contains('/'),
        is_segment(c),
        !has_drive(c),
        forward(c) == c,
    ensures
        is_regular(backslash_join(parent, c)),
        windows_components(backslash_join(parent, c)) == windows_components(parent).push(c),
{
    let r = backslash_join(parent, c);
    assert forall|i: int| 0 <= i < c.len() implies !is_separator(c[i]) by {
        assert(c.contains(c[i]));
        assert(forward(c)[i] == c[i]);
    }
    lemma_forward_join(parent, c);
    assert(!two_separators(r));
    assert(!has_drive(r));
    if is_verbatim(r) {
        assert(r.subrange(0, 4)[0] == '\\' && r.subrange(0, 4)[1] == '\\');
    }
    lemma_one_more_component(forward(parent), c);
}

/// A legal name stays below the directory that it is joined to: the joined path has the
/// components of the directory and, behind them, the name, as Unix or Windows reads the two. A name
/// with a drive takes the place of the directory on Windows, and a single dot names the directory
/// itself.
pub proof fn join_path_adds_one_component(parent: Seq<char>, child: Seq<char>, r: Seq<char>)
    requires
        joined(parent, trimmed(child), r),
        is_regular(parent),
        legal_child(child),
        !has_drive(trimmed(child)),
        trimmed(child) != seq!['.'],
    ensures
        trimmed(child) != seq!['.', '.'],
        path_components(r) == path_components(parent).push(trimmed(child)) || (is_regular(r)
            && windows_components(r) == windows_components(parent).push(trimmed(child))),
{
    let c = trimmed(child);
    lemma_legal_child(child);
    relative_child_stands_behind(parent, c, r);
    if r == slash_join(parent, c) {
        lemma_one_more_component(parent, c);
    } else if has_drive(parent) {
        lemma_join_below_drive(parent, c);
    } else if two_separators(parent) {
        lemma_join_below_share(parent, c);
    } else {
        lemma_join_below_directory(parent, c);
    }
}

proof fn lemma_after_separator_of(front: Seq<char>, tail: Seq<char>)
    requires
        forall|i: int| 0 <= i < tail.len() ==> !is_separator(#[trigger] tail[i]),
    ensures
        after_separator(front + tail) == after_separator(front) + tail,
    decreases tail.len(),
{
    if tail.len() == 0 {
        assert(front + tail =~= front);
        assert(after_separator(front) + tail =~= after_separator(front));
    } else {
        let head = tail.drop_last();
        assert forall|i: int| 0 <= i < head.len() implies !is_separator(#[trigger] head[i]) by {
            assert(head[i] == tail[i]);
        }
        lemma_after_separator_of(front, head);
        assert((front + tail).drop_last() =~= front + head);
        assert(!is_separator(tail[tail.len() - 1]));
        assert((after_separator(front) + head).push(tail.last()) =~= after_separator(front) + tail);
    }
}

proof fn lemma_last_dot_before(word: Seq<char>)
    requires
        !word.contains('.'),
    ensures
        last_dot(seq!['.'] + word) == Some(0int),
    decreases word.len(),
{
    let s = seq!['.'] + word;
    if word.len() > 0 {
        assert(s.last() == word[word.len() - 1]);
        assert(s.drop_last() =~= seq!['.'] + word.drop_last());
        assert forall|i: int| 0 <= i < word.len() - 1 implies word.drop_last()[i] != '.' by {
            assert(word[i] != '.');
        }
        lemma_last_dot_before(word.drop_last());
    } else {
        assert(s.drop_last() =~= Seq::<char>::empty());
    }
}

/// What is written behind the last dot of a path is read as its extension, on every platform.
pub proof fn written_extension_is_read(front: Seq<char>, word: Seq<char>, ext: Option<Seq<char>>)
    requires
        extension_outcome(front + seq!['.'] + word, ext),
        is_regular(front + seq!['.'] + word),
        ends_in_name(front + seq!['.'] + word),
        front.len() > 0,
        !is_separator(front.last()),
        !word.contains('.'),
        !has_separator(word),
    ensures
        ext == Some(word),
{
    let p = front + seq!['.'] + word;
    let tail = seq!['.'] + word;
    assert(p =~= front + tail);
    assert forall|i: int| 0 <= i < tail.len() implies !is_separator(#[trigger] tail[i]) by {
        if i > 0 {
            assert(tail[i] == word[i - 1]);
            assert(word.contains(word[i - 1]));
        }
    }
    lemma_after_separator_of(front, tail);
    let x = after_separator(front);
    assert(x.len() > 0);
    lemma_last_dot_before(word);
    lemma_last_dot_behind(x, tail);
    extension_follows_the_last_dot(p, ext);
    let name = x + tail;
    assert(name.skip(x.len() as int + 1) =~= word);
}

/// Stem and extension make up the name, with the last dot between them; a name without an extension
/// is its own stem. An extension holds no dot.
pub proof fn stem_and_extension_make_the_name(name: Seq<char>)
    ensures
        match extension_of(name) {
            Some(ext) => name == stem_of(name) + seq!['.'] + ext && !ext.contains('.')
                && stem_of(name).len() > 0,
            None => stem_of(name) == name,
        },
        extension_of(name) is None ==> !name.contains('.') || name == seq!['.', '.'] || (name[0]
            == '.' && !name.skip(1).contains('.')),
{
    lemma_last_dot(name);
    if last_dot(name) is Some {
        let i = last_dot(name)->Some_0;
        lemma_no_dot_behind(name);
        assert(name =~= name.take(i) + seq!['.'] + name.skip(i + 1));
    }
}

proof fn lemma_no_dot_behind(s: Seq<char>)
    requires
        last_dot(s) is Some,
    ensures
        0 <= last_dot(s)->Some_0 < s.len(),
        !s.skip(last_dot(s)->Some_0 + 1).contains('.'),
    decreases s.len(),
{
    let i = last_dot(s)->Some_0;
    if s.last() != '.' {
        lemma_no_dot_behind(s.drop_last());
        let rest = s.drop_last().skip(i + 1);
        let behind = s.skip(i + 1);
        assert(behind =~= rest.push(s.last()));
        assert forall|k: int| 0 <= k < behind.len() implies #[trigger] behind[k] != '.' by {
            if k < rest.len() {
                assert(rest[k] == behind[k]);
                assert(rest.contains(rest[k]));
            }
        }
    }
}

/// A name is refused exactly where nothing is left of it without the white space around it, or where
/// it holds a separator or two dots in a row.
pub proof fn names_that_lead_elsewhere_are_refused(child: Seq<char>)
    ensures
        legal_child(child) <==> {
            let name = trimmed(child);
            &&& name.len() > 0
            &&& forall|i: int| 0 <= i < name.len() ==> #[trigger] name[i] != '/' && name[i] != '\\'
            &&& forall|i: int|
                0 <= i < name.len() - 1 ==> !(#[trigger] name[i] == '.' && name[i + 1] == '.')
        },
{
    let name = trimmed(child);
    reveal_strlit("..");
    if legal_child(child) {
        assert forall|i: int| 0 <= i < name.len() implies #[trigger] name[i] != '/' && name[i]
            != '\\' by {
            assert(name.contains(name[i]));
        }
        assert forall|i: int| 0 <= i < name.len() - 1 implies !(#[trigger] name[i] == '.'
            && name[i + 1] == '.') by {
            if name[i] == '.' && name[i + 1] == '.' {
                assert(name.subrange(i, i + 2) =~= ".."@);
                assert(text_at(name, ".."@, i));
            }
        }
    }
    if has_text(name, ".."@) {
        let i = choose|i: int| #[trigger] text_at(name, ".."@, i);
        assert(name[i] == name.subrange(i, i + 2)[0] && name[i + 1] == name.subrange(i, i + 2)[1]);
    }
}

/// Of a portable path, both platforms read the same components.
pub proof fn portable_components_are_known(p: Seq<char>)
    requires
        portable(p),
    ensures
        windows_components(p) == path_components(p),
        is_regular(p),
        !has_drive(p),
{
    lemma_portable_readings(p);
}

/// A directory is joined exactly where its name is legal, and the name is the one without the white
/// space around it; any other name is refused.
pub proof fn only_legal_names_are_joined(parent: &str, child: &str, r: Result<String, String>)
    requires
        call_ensures(join_path, (parent, child), r),
    ensures
        trimmed(child@).len() == 0 ==> r is Err,
        trimmed(child@).contains('/') ==> r is Err,
        trimmed(child@).contains('\\') ==> r is Err,
        has_text(trimmed(child@), ".."@) ==> r is Err,
        r matches Ok(p) ==> joined(parent@, trimmed(child@), p@),
        r matches Err(e) ==> e@ == "非法子目录名"@ && (trimmed(child@).len() == 0 || trimmed(
            child@,
        ).contains('/') || trimmed(child@).contains('\\') || has_text(trimmed(child@), ".."@)),
{
}

} // verus!
