//! Fresh names and times: what differs from one run to the next.

use crate::numbers::all_digits;
use crate::numbers::decimal;
use crate::numbers::decimal_is_digits;
use crate::numbers::decimal_text;
use crate::numbers::digits_of_decimal;
use crate::numbers::digits_value;
use crate::paths::joined;
use crate::paths::path_join;
use crate::paths::relative_child;
use crate::text::concat2;
use crate::text::concat4;
use crate::text::finishes_with;
use chrono::Utc;
use std::time::SystemTime;
use std::time::UNIX_EPOCH;
use uuid::Uuid;
use vstd::prelude::*;

verus! {

pub open spec fn is_hex_digit(c: char) -> bool {
    '0' <= c <= '9' || 'a' <= c <= 'f'
}

/// The digits of a random identifier: 32 hexadecimal digits in lower case, with the marks of a
/// random one at 12 and 16.
pub open spec fn is_simple_id(s: Seq<char>) -> bool {
    &&& s.len() == 32
    &&& forall|i: int| 0 <= i < 32 ==> is_hex_digit(#[trigger] s[i])
    &&& s[12] == '4'
    &&& s[16] == '8' || s[16] == '9' || s[16] == 'a' || s[16] == 'b'
}

/// A random identifier with hyphens between its groups of 8, 4, 4, 4 and 12 digits.
pub open spec fn is_hyphenated_id(s: Seq<char>) -> bool {
    &&& s.len() == 36
    &&& s[8] == '-' && s[13] == '-' && s[18] == '-' && s[23] == '-'
    &&& forall|i: int|
        0 <= i < 36 && i != 8 && i != 13 && i != 18 && i != 23 ==> is_hex_digit(#[trigger] s[i])
    &&& s[14] == '4'
    &&& s[19] == '8' || s[19] == '9' || s[19] == 'a' || s[19] == 'b'
}

/// `uuid::Uuid::new_v4` and `simple`: a random identifier in lower case without hyphens. Which one
/// is left to chance. The call panics where the system has no source of randomness.
#[verifier::external_body]
pub(crate) fn random_simple_id() -> (r: String)
    ensures
        is_simple_id(r@),
{
    Uuid::new_v4().simple().to_string()
}

/// `uuid::Uuid::new_v4` and its `Display`: a random identifier in lower case with hyphens. Which
/// one is left to chance. The call panics where the system has no source of randomness.
#[verifier::external_body]
pub(crate) fn random_hyphenated_id() -> (r: String)
    ensures
        is_hyphenated_id(r@),
{
    Uuid::new_v4().to_string()
}

/// `std::time::SystemTime::duration_since`: the milliseconds from the start of 1970 to now, or the
/// text of the error where the clock stands before that. Nothing is claimed of either.
#[verifier::external_body]
pub(crate) fn unix_millis() -> (r: Result<u128, String>) {
    SystemTime::now().duration_since(UNIX_EPOCH).map(|d| d.as_millis()).map_err(|e| e.to_string())
}

/// The short name of a day of the week.
pub open spec fn is_weekday(s: Seq<char>) -> bool {
    s == "Mon"@ || s == "Tue"@ || s == "Wed"@ || s == "Thu"@ || s == "Fri"@ || s == "Sat"@ || s
        == "Sun"@
}

/// The short name of a month.
pub open spec fn is_month(s: Seq<char>) -> bool {
    s == "Jan"@ || s == "Feb"@ || s == "Mar"@ || s == "Apr"@ || s == "May"@ || s == "Jun"@ || s
        == "Jul"@ || s == "Aug"@ || s == "Sep"@ || s == "Oct"@ || s == "Nov"@ || s == "Dec"@
}

/// A year from 1970 on: four digits, or a plus sign and more digits.
pub open spec fn is_year(s: Seq<char>) -> bool {
    (s.len() == 4 && all_digits(s)) || (s.len() > 5 && s[0] == '+' && all_digits(s.drop_first()))
}

/// A time of day: three times two digits with colons between them.
pub open spec fn is_clock(s: Seq<char>) -> bool {
    &&& s.len() == 8
    &&& s[2] == ':' && s[5] == ':'
    &&& all_digits(s.subrange(0, 2)) && all_digits(s.subrange(3, 5)) && all_digits(
        s.subrange(6, 8),
    )
}

/// The shape of a date in the form of RFC 1123, such as `Sun, 06 Nov 1994 08:49:37 GMT`.
pub open spec fn is_http_date(s: Seq<char>) -> bool {
    let n = s.len() as int;
    &&& n >= 29
    &&& is_weekday(s.subrange(0, 3))
    &&& s[3] == ',' && s[4] == ' ' && s[7] == ' ' && s[11] == ' ' && s[n - 13] == ' '
    &&& all_digits(s.subrange(5, 7))
    &&& is_month(s.subrange(8, 11))
    &&& is_year(s.subrange(12, n - 13))
    &&& is_clock(s.subrange(n - 12, n - 4))
    &&& finishes_with(s, " GMT"@)
}

/// The pattern of a date in the form of RFC 1123.
pub open spec fn http_date_pattern() -> Seq<char> {
    "%a, %d %b %Y %H:%M:%S GMT"@
}

/// `chrono::Utc::now` and `chrono::DateTime::format`: the present time in UTC, written after the
/// pattern. The time is left open; what is claimed is the shape that the pattern fixes. Other
/// patterns are left out: `to_string` panics on one that is not valid. `now` panics where the clock
/// of the system stands before 1970.
#[verifier::external_body]
pub(crate) fn utc_now_text(pattern: &str) -> (r: String)
    requires
        pattern@ == http_date_pattern(),
    ensures
        is_http_date(r@),
{
    Utc::now().format(pattern).to_string()
}

/// The present date in the form of RFC 1123.
pub fn rfc_1123_date() -> (r: String)
    ensures
        is_http_date(r@),
{
    utc_now_text("%a, %d %b %Y %H:%M:%S GMT")
}

/// The identifier of an upload batch for a reading of the clock: its milliseconds in digits.
pub fn upload_run_id(millis: &Result<u128, String>) -> (r: Result<String, String>)
    ensures
        match *millis {
            Ok(n) => r matches Ok(s) && s@ == decimal(n as nat),
            Err(e) => r matches Err(t) && t@ == "生成上传批次 ID 失败: "@ + e@,
        },
{
    match millis {
        Ok(n) => Ok(decimal_text(*n)),
        Err(e) => Err(concat2("生成上传批次 ID 失败: ", e.as_str())),
    }
}

/// A text that begins with another.
pub open spec fn is_text_after(s: Seq<char>, prefix: Seq<char>) -> bool {
    exists|rest: Seq<char>| s == #[trigger] (prefix + rest)
}

/// A new identifier of an upload batch: the milliseconds of the clock in digits.
pub fn new_upload_run_id() -> (r: Result<String, String>)
    ensures
        r matches Ok(s) ==> s@.len() > 0 && all_digits(s@) && exists|n: u128|
            s@ == #[trigger] decimal(n as nat),
        r matches Err(e) ==> is_text_after(e@, "生成上传批次 ID 失败: "@),
{
    let millis = unix_millis();
    let r = upload_run_id(&millis);
    proof {
        match millis {
            Ok(n) => {
                decimal_is_digits(n as nat);
                assert(r->Ok_0@ == decimal(n as nat));
            },
            Err(e) => {
                assert(r->Err_0@ == "生成上传批次 ID 失败: "@ + e@);
            },
        }
    }
    r
}

/// The name of a fresh output directory.
pub open spec fn output_dir_name(id: Seq<char>) -> Seq<char> {
    "giff_tiles_"@ + id
}

/// The path of a fresh output directory below the directory for temporary files.
pub fn default_output_dir(temp_dir: &str) -> (r: String)
    ensures
        exists|id: Seq<char>|
            is_simple_id(id) && joined(temp_dir@, #[trigger] output_dir_name(id), r@),
{
    let id = random_simple_id();
    let name = concat2("giff_tiles_", id.as_str());
    let r = path_join(temp_dir, name.as_str());
    assert(joined(temp_dir@, output_dir_name(id@), r@));
    r
}

/// The name of a fresh file for a preview in a coordinate system.
pub open spec fn preview_name(target_crs: Seq<char>, id: Seq<char>) -> Seq<char> {
    "giff-preview-"@ + target_crs + "-"@ + id + ".vrt"@
}

/// The path of a fresh file for a preview, below the directory for temporary files.
pub fn preview_temp_path(temp_dir: &str, target_crs: &str) -> (r: String)
    ensures
        exists|id: Seq<char>|
            is_hyphenated_id(id) && joined(temp_dir@, #[trigger] preview_name(target_crs@, id), r@),
{
    let id = random_hyphenated_id();
    let mut name = concat4("giff-preview-", target_crs, "-", id.as_str());
    name.append(".vrt");
    let r = path_join(temp_dir, name.as_str());
    assert(joined(temp_dir@, preview_name(target_crs@, id@), r@));
    r
}

/// The name of a fresh output directory can be put behind any directory.
pub proof fn output_dir_name_is_relative(id: Seq<char>)
    requires
        is_simple_id(id),
    ensures
        relative_child(output_dir_name(id)),
{
    reveal_strlit("giff_tiles_");
    let name = output_dir_name(id);
    assert(name[0] == 'g' && name[1] == 'i');
}

/// The names of fresh directories and files begin with the name of the program and end in their
/// identifiers, those of files for previews with the target in between and the extension of a virtual
/// image behind.
pub proof fn fresh_names_hold_their_identifiers(target_crs: Seq<char>, id: Seq<char>)
    ensures
        output_dir_name(id) == "giff_tiles_"@ + id,
        preview_name(target_crs, id) == "giff-preview-"@ + target_crs + "-"@ + id + ".vrt"@,
        forall|other: Seq<char>| #[trigger] output_dir_name(other) == output_dir_name(id) ==> other
            == id,
{
    let n = "giff_tiles_"@.len() as int;
    assert forall|other: Seq<char>| #[trigger] output_dir_name(other) == output_dir_name(id) implies other
        == id by {
        assert(output_dir_name(other).skip(n) =~= other);
        assert(output_dir_name(id).skip(n) =~= id);
    }
}

/// A batch is named by the milliseconds of the clock, in digits that stand for them.
pub proof fn batches_are_named_by_the_clock(millis: u128, failure: String, r: Result<String, String>)
    ensures
        call_ensures(upload_run_id, (&Ok::<u128, String>(millis),), r) ==> (r matches Ok(s)
            && all_digits(s@) && digits_value(s@) == millis),
        call_ensures(upload_run_id, (&Err::<u128, String>(failure),), r) ==> (r matches Err(e) && e@
            == "生成上传批次 ID 失败: "@ + failure@),
{
    digits_of_decimal(millis as nat);
    decimal_is_digits(millis as nat);
}

} // verus!
