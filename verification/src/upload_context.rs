//! The folder of an upload batch that a web page has started for a tenant.

use crate::ids::is_text_after;
use crate::ids::new_upload_run_id;
use crate::numbers::all_digits;
use crate::numbers::decimal;
use crate::text::ascii_lower;
use crate::text::chars_of;
use crate::text::concat4;
use crate::text::is_control_code;
use crate::text::is_digit;
use crate::text::is_white_space;
use crate::text::join;
use crate::text::join_with;
use crate::text::lemma_split_by_nonempty;
use crate::text::lemma_split_concat;
use crate::text::lemma_split_single;
use crate::text::lemma_trim_by;
use crate::text::lemma_trim_fixed;
use crate::text::same_text;
use crate::text::split_by;
use crate::text::split_whitespace;
use crate::text::take_at_most;
use crate::text::take_chars;
use crate::text::to_ascii_lower;
use crate::text::trim;
use crate::text::trimmed;
use crate::text::trim_both;
use crate::text::trim_by;
use crate::text::trimming_takes_only_the_ends;
use crate::text::words;
use crate::text::CharClass;
use vstd::prelude::*;

verus! {

/// Who has started an upload from a web page, and for which layer.
#[derive(Debug, Clone)]
pub struct UploadContext {
    pub tenant_id: String,
    pub ts: String,
    pub platform: String,
    pub layer_name: String,
}

/// A character that file systems or control sequences give a meaning to.
pub open spec fn is_sensitive(c: char) -> bool {
    ||| c == '/'
    ||| c == '\\'
    ||| c == ':'
    ||| c == '*'
    ||| c == '?'
    ||| c == '"'
    ||| c == '<'
    ||| c == '>'
    ||| c == '|'
    ||| is_control_code(c)
}

/// The text with an underscore in the place of each sensitive character.
pub open spec fn masked(s: Seq<char>) -> Seq<char> {
    s.map_values(
        |c: char|
            if is_sensitive(c) {
                '_'
            } else {
                c
            },
    )
}

/// The name of a folder out of a free text: sensitive characters and runs of white space become
/// underscores, those at the ends are dropped, and 80 characters are kept at most.
pub open spec fn folder_segment(input: Seq<char>) -> Seq<char> {
    take_at_most(
        trim_by(join(words(masked(trimmed(input))), "_"@), CharClass::Exactly('_')),
        80,
    )
}

fn mask(s: &str) -> (r: String)
    ensures
        r@ == masked(s@),
{
    let v = chars_of(s);
    let mut out = String::new();
    let mut i: usize = 0;
    while i < v.len()
        invariant
            i <= v.len(),
            out@ == masked(v@.take(i as int)),
        decreases v.len() - i,
    {
        let c = v[i];
        if c == '/' || c == '\\' || c == ':' || c == '*' || c == '?' || c == '"' || c == '<' || c
            == '>' || c == '|' || c.is_control() {
            out.push('_');
        } else {
            out.push(c);
        }
        i += 1;
        assert(v@.take(i as int) == v@.take(i - 1).push(c));
    }
    assert(v@.take(v@.len() as int) == v@);
    out
}

/// The name of a folder out of a free text.
pub fn sanitize_folder_segment(input: &str) -> (r: String)
    ensures
        r@ == folder_segment(input@),
{
    let inner = trim(input);
    let cleaned = mask(inner.as_str());
    let parts = split_whitespace(cleaned.as_str());
    let joined = join_with(&parts, "_");
    let bare = trim_both(joined.as_str(), CharClass::Exactly('_'));
    take_chars(bare.as_str(), 80)
}

/// The folder of a batch of a tenant: the tenant, and below it the layer with the time of the
/// request. There is one where tenant and layer have a name, the time is made of digits and the
/// platform is one of the two that are known.
pub open spec fn tenant_folder(ctx: UploadContext) -> Option<Seq<char>> {
    let tenant = folder_segment(ctx.tenant_id@);
    let layer = folder_segment(ctx.layer_name@);
    let ts = trimmed(ctx.ts@);
    let platform = ascii_lower(trimmed(ctx.platform@));
    if tenant.len() > 0 && layer.len() > 0 && all_digits(ts) && (platform == "win"@ || platform
        == "mac"@) {
        Some(tenant + "/"@ + layer + "_"@ + ts)
    } else {
        None
    }
}

fn digits_only(s: &str) -> (r: bool)
    ensures
        r == all_digits(s@),
{
    let v = chars_of(s);
    let mut i: usize = 0;
    while i < v.len()
        invariant
            i <= v.len(),
            v@ == s@,
            forall|j: int| 0 <= j < i ==> is_digit(#[trigger] s@[j]),
        decreases v.len() - i,
    {
        if !('0' <= v[i] && v[i] <= '9') {
            assert(!is_digit(s@[i as int]));
            return false;
        }
        i += 1;
    }
    true
}

/// The folder of a batch that a web page has started, where the page has told enough.
pub fn context_folder(ctx: &UploadContext) -> (r: Option<String>)
    ensures
        crate::text::opt_text(r) == tenant_folder(*ctx),
{
    let tenant_id = sanitize_folder_segment(ctx.tenant_id.as_str());
    let layer_name = sanitize_folder_segment(ctx.layer_name.as_str());
    let ts = trim(ctx.ts.as_str());
    let inner = trim(ctx.platform.as_str());
    let platform = to_ascii_lower(inner.as_str());
    let platform_ok = same_text(platform.as_str(), "win") || same_text(platform.as_str(), "mac");
    if tenant_id.as_str().is_empty() || layer_name.as_str().is_empty() || !digits_only(ts.as_str())
        || !platform_ok {
        return None;
    }
    let mut folder = concat4(tenant_id.as_str(), "/", layer_name.as_str(), "_");
    folder.append(ts.as_str());
    Some(folder)
}

/// The folder of a batch in a request: that of the tenant, if any.
pub open spec fn requested_folder(ctx: Option<UploadContext>) -> Option<Seq<char>> {
    match ctx {
        Some(c) => tenant_folder(c),
        None => None,
    }
}

/// The folder of an upload batch: that of the tenant, or else a new number.
pub fn build_upload_run_segment(ctx: &Option<UploadContext>) -> (r: Result<String, String>)
    ensures
        match requested_folder(*ctx) {
            Some(folder) => r matches Ok(s) && s@ == folder,
            None => {
                &&& r matches Ok(s) ==> s@.len() > 0 && all_digits(s@) && exists|n: u128|
                    s@ == #[trigger] decimal(n as nat)
                &&& r matches Err(e) ==> is_text_after(e@, "生成上传批次 ID 失败: "@)
            },
        },
{
    if let Some(c) = ctx {
        if let Some(folder) = context_folder(c) {
            return Ok(folder);
        }
    }
    new_upload_run_id()
}

// What holds of the names of folders.

/// A character that a folder name may have.
pub open spec fn is_plain(c: char) -> bool {
    !is_sensitive(c) && !is_white_space(c)
}

pub open spec fn all_plain(s: Seq<char>) -> bool {
    forall|i: int| 0 <= i < s.len() ==> is_plain(#[trigger] s[i])
}

pub open spec fn none_sensitive(s: Seq<char>) -> bool {
    forall|i: int| 0 <= i < s.len() ==> !is_sensitive(#[trigger] s[i])
}

proof fn lemma_pieces_plain(s: Seq<char>)
    requires
        none_sensitive(s),
    ensures
        forall|p: int|
            0 <= p < split_by(s, CharClass::WhiteSpace).len() ==> all_plain(
                #[trigger] split_by(s, CharClass::WhiteSpace)[p],
            ),
    decreases s.len(),
{
    let k = CharClass::WhiteSpace;
    lemma_split_by_nonempty(s, k);
    if s.len() > 0 {
        let rest = s.drop_last();
        assert forall|i: int| 0 <= i < rest.len() implies !is_sensitive(#[trigger] rest[i]) by {
            assert(rest[i] == s[i]);
        }
        lemma_pieces_plain(rest);
        lemma_split_by_nonempty(rest, k);
        let before = split_by(rest, k);
        assert(!is_sensitive(s[s.len() - 1]));
        assert forall|p: int| 0 <= p < split_by(s, k).len() implies all_plain(
            #[trigger] split_by(s, k)[p],
        ) by {
            if k.has(s.last()) {
                if p < before.len() {
                    assert(split_by(s, k)[p] == before[p]);
                }
            } else {
                if p < before.len() - 1 {
                    assert(split_by(s, k)[p] == before[p]);
                } else {
                    assert(all_plain(before[before.len() - 1]));
                    assert(split_by(s, k)[p] == before.last().push(s.last()));
                }
            }
        }
    }
}

proof fn lemma_words_plain(s: Seq<char>)
    requires
        none_sensitive(s),
    ensures
        forall|p: int| 0 <= p < words(s).len() ==> all_plain(#[trigger] words(s)[p]),
{
    lemma_pieces_plain(s);
    let pieces = split_by(s, CharClass::WhiteSpace);
    let keep = |w: Seq<char>| w.len() > 0;
    assert forall|p: int| 0 <= p < words(s).len() implies all_plain(#[trigger] words(s)[p]) by {
        assert(words(s).contains(words(s)[p]));
        pieces.lemma_filter_contains_rev(keep, words(s)[p]);
        let q = choose|q: int| 0 <= q < pieces.len() && pieces[q] == words(s)[p];
        assert(all_plain(pieces[q]));
    }
}

proof fn lemma_join_plain(parts: Seq<Seq<char>>)
    requires
        forall|p: int| 0 <= p < parts.len() ==> all_plain(#[trigger] parts[p]),
    ensures
        all_plain(join(parts, "_"@)),
    decreases parts.len(),
{
    reveal_strlit("_");
    if parts.len() > 1 {
        let rest = parts.drop_last();
        assert forall|p: int| 0 <= p < rest.len() implies all_plain(#[trigger] rest[p]) by {
            assert(rest[p] == parts[p]);
        }
        lemma_join_plain(rest);
        let a = join(rest, "_"@);
        let whole = a + "_"@ + parts.last();
        assert(all_plain(parts[parts.len() - 1]));
        assert forall|i: int| 0 <= i < whole.len() implies is_plain(#[trigger] whole[i]) by {
            if i < a.len() {
                assert(whole[i] == a[i]);
            } else if i == a.len() {
                assert(whole[i] == '_');
            } else {
                assert(whole[i] == parts.last()[i - a.len() - 1]);
            }
        }
    }
}

/// The name of a folder is safe: it has 80 characters at most, none of them white space, a control
/// character or one that a file system gives a meaning to, and it does not begin with an
/// underscore.
pub proof fn folder_segment_is_plain(input: Seq<char>)
    ensures
        all_plain(folder_segment(input)),
        folder_segment(input).len() <= 80,
        folder_segment(input).len() > 0 ==> folder_segment(input)[0] != '_',
{
    let m = masked(trimmed(input));
    assert forall|i: int| 0 <= i < m.len() implies !is_sensitive(#[trigger] m[i]) by {}
    lemma_words_plain(m);
    let j = join(words(m), "_"@);
    lemma_join_plain(words(m));
    let from = lemma_trim_by(j, CharClass::Exactly('_'));
    let t = trim_by(j, CharClass::Exactly('_'));
    assert forall|i: int| 0 <= i < folder_segment(input).len() implies is_plain(
        #[trigger] folder_segment(input)[i],
    ) by {
        assert(folder_segment(input)[i] == t[i]);
        assert(t[i] == j[from + i]);
    }
}

/// A safe name that does not end in an underscore is its own folder name. A name that was cut at
/// 80 characters can end in one, and then it loses it.
pub proof fn folder_segment_is_stable(input: Seq<char>)
    requires
        folder_segment(input).len() > 0 ==> folder_segment(input).last() != '_',
    ensures
        folder_segment(folder_segment(input)) == folder_segment(input),
{
    let s = folder_segment(input);
    folder_segment_is_plain(input);
    let k = CharClass::WhiteSpace;
    if s.len() > 0 {
        assert(is_plain(s[0]) && is_plain(s[s.len() - 1]));
    }
    lemma_trim_fixed(s, k);
    assert(masked(s) =~= s) by {
        assert forall|i: int| 0 <= i < s.len() implies masked(s)[i] == s[i] by {
            assert(is_plain(s[i]));
        }
    }
    assert forall|i: int| 0 <= i < s.len() implies !k.has(#[trigger] s[i]) by {
        assert(is_plain(s[i]));
    }
    lemma_split_single(s, k);
    let keep = |w: Seq<char>| w.len() > 0;
    reveal(Seq::filter);
    assert(seq![s].drop_last() =~= Seq::<Seq<char>>::empty());
    assert(seq![s].drop_last().filter(keep) =~= Seq::<Seq<char>>::empty());
    if s.len() > 0 {
        assert(words(s) =~= seq![s]);
    } else {
        assert(words(s) =~= Seq::<Seq<char>>::empty());
        assert(s =~= Seq::<char>::empty());
    }
    assert(join(words(s), "_"@) == s);
    lemma_trim_fixed(s, CharClass::Exactly('_'));
}

/// The folder of a tenant has two levels, neither of them empty: the tenant, and the layer with
/// the time.
pub proof fn tenant_folder_has_two_levels(ctx: UploadContext)
    requires
        tenant_folder(ctx) is Some,
    ensures
        split_by(tenant_folder(ctx)->0, CharClass::Exactly('/')) == seq![
            folder_segment(ctx.tenant_id@),
            folder_segment(ctx.layer_name@) + "_"@ + trimmed(ctx.ts@),
        ],
        folder_segment(ctx.tenant_id@).len() > 0,
        folder_segment(ctx.layer_name@).len() > 0,
        trimmed(tenant_folder(ctx)->0) == tenant_folder(ctx)->0,
{
    reveal_strlit("/");
    reveal_strlit("_");
    let k = CharClass::Exactly('/');
    let tenant = folder_segment(ctx.tenant_id@);
    let layer = folder_segment(ctx.layer_name@);
    let ts = trimmed(ctx.ts@);
    let below = layer + "_"@ + ts;
    let folder = tenant_folder(ctx)->0;
    folder_segment_is_plain(ctx.tenant_id@);
    folder_segment_is_plain(ctx.layer_name@);
    assert(folder =~= tenant + seq!['/'] + below);
    lemma_split_concat(tenant, '/', below, k);
    assert forall|i: int| 0 <= i < tenant.len() implies !k.has(#[trigger] tenant[i]) by {
        assert(is_plain(tenant[i]));
    }
    assert forall|i: int| 0 <= i < below.len() implies !k.has(#[trigger] below[i]) && !is_white_space(
        below[i],
    ) by {
        if i < layer.len() {
            assert(below[i] == layer[i]);
            assert(is_plain(layer[i]));
        } else if i == layer.len() {
            assert(below[i] == '_');
        } else {
            assert(below[i] == ts[i - layer.len() - 1]);
            assert(is_digit(ts[i - layer.len() - 1]));
        }
    }
    lemma_split_single(tenant, k);
    lemma_split_single(below, k);
    assert(seq![tenant] + seq![below] =~= seq![tenant, below]);
    assert(is_plain(tenant[0]));
    assert(folder[0] == tenant[0]);
    assert(folder.last() == below[below.len() - 1]);
    assert(!is_white_space(below[below.len() - 1]));
    lemma_trim_fixed(folder, CharClass::WhiteSpace);
}

/// The folder of a batch is that of its tenant exactly where tenant and layer have a name, the time
/// has nothing but digits, and the platform is `win` or `mac` in capital or small letters; it is the
/// tenant, a slash, the layer, an underscore and the time.
pub proof fn tenants_have_a_folder_where_enough_is_told(ctx: UploadContext)
    ensures
        ({
            let tenant = folder_segment(ctx.tenant_id@);
            let layer = folder_segment(ctx.layer_name@);
            let ts = trimmed(ctx.ts@);
            let platform = ascii_lower(trimmed(ctx.platform@));
            &&& tenant_folder(ctx) is Some <==> {
                &&& tenant.len() > 0
                &&& layer.len() > 0
                &&& forall|i: int| 0 <= i < ts.len() ==> '0' <= #[trigger] ts[i] <= '9'
                &&& platform == "win"@ || platform == "mac"@
            }
            &&& tenant_folder(ctx) matches Some(folder) ==> folder == tenant + seq!['/'] + layer
                + seq!['_'] + ts
        }),
        requested_folder(None) is None,
        requested_folder(Some(ctx)) == tenant_folder(ctx),
{
    reveal_strlit("/");
    reveal_strlit("_");
    assert("/"@ =~= seq!['/']);
    assert("_"@ =~= seq!['_']);
    let ts = trimmed(ctx.ts@);
    if all_digits(ts) {
        assert forall|i: int| 0 <= i < ts.len() implies '0' <= #[trigger] ts[i] <= '9' by {
            assert(is_digit(ts[i]));
        }
    } else {
        let i = choose|i: int| 0 <= i < ts.len() && !is_digit(#[trigger] ts[i]);
        assert(!('0' <= ts[i] <= '9'));
    }
}

/// The name of a folder holds none of the characters that file systems give a meaning to.
pub proof fn folder_names_hold_no_sensitive_character(input: Seq<char>, i: int)
    requires
        0 <= i < folder_segment(input).len(),
    ensures
        ({
            let c = folder_segment(input)[i];
            &&& c != '/' && c != '\\' && c != ':' && c != '*' && c != '?' && c != '"' && c != '<'
                && c != '>' && c != '|'
            &&& c > '\u{1f}' && !('\u{7f}' <= c <= '\u{9f}')
            &&& !is_white_space(c)
        }),
{
    folder_segment_is_plain(input);
    assert(is_plain(folder_segment(input)[i]));
}

/// A character that no folder name may have: one that file systems or control sequences give a
/// meaning to, and any other is kept.
pub proof fn sensitive_characters_are_these(c: char)
    ensures
        is_sensitive(c) <==> {
            ||| c == '/' || c == '\\' || c == ':' || c == '*' || c == '?' || c == '"'
            ||| c == '<' || c == '>' || c == '|'
            ||| c <= '\u{1f}' || '\u{7f}' <= c <= '\u{9f}'
        },
{
}

proof fn lemma_one_word(s: Seq<char>)
    requires
        s.len() > 0,
        forall|i: int| 0 <= i < s.len() ==> !is_white_space(#[trigger] s[i]),
    ensures
        words(s) == seq![s],
        split_by(s, CharClass::WhiteSpace) == seq![s],
{
    let k = CharClass::WhiteSpace;
    assert forall|i: int| 0 <= i < s.len() implies !k.has(#[trigger] s[i]) by {}
    lemma_split_single(s, k);
    let keep = |w: Seq<char>| w.len() > 0;
    reveal(Seq::filter);
    assert(seq![s].drop_last() =~= Seq::<Seq<char>>::empty());
    assert(seq![s].drop_last().filter(keep) =~= Seq::<Seq<char>>::empty());
    assert(words(s) =~= seq![s]);
}

/// A name of 80 characters at most that holds only what a folder name may hold, and no underscore at
/// its ends, is its own folder name.
pub proof fn plain_names_are_kept(name: Seq<char>)
    requires
        0 < name.len() <= 80,
        forall|i: int|
            0 <= i < name.len() ==> !is_sensitive(#[trigger] name[i]) && !is_white_space(name[i]),
        name[0] != '_',
        name.last() != '_',
    ensures
        folder_segment(name) == name,
{
    assert(!is_white_space(name[0]) && !is_white_space(name[name.len() - 1]));
    lemma_trim_fixed(name, CharClass::WhiteSpace);
    assert(masked(name) =~= name) by {
        assert forall|i: int| 0 <= i < name.len() implies masked(name)[i] == name[i] by {
            assert(!is_sensitive(name[i]));
        }
    }
    lemma_one_word(name);
    assert(join(words(name), "_"@) == name);
    lemma_trim_fixed(name, CharClass::Exactly('_'));
}

/// A sensitive character inside a name, and white space inside it, become one underscore.
pub proof fn what_is_not_plain_becomes_an_underscore(a: Seq<char>, c: char, b: Seq<char>)
    requires
        0 < a.len(),
        0 < b.len(),
        a.len() + 1 + b.len() <= 80,
        forall|i: int|
            0 <= i < a.len() ==> !is_sensitive(#[trigger] a[i]) && !is_white_space(a[i]),
        forall|i: int|
            0 <= i < b.len() ==> !is_sensitive(#[trigger] b[i]) && !is_white_space(b[i]),
        a[0] != '_',
        b.last() != '_',
        is_sensitive(c) || is_white_space(c),
    ensures
        folder_segment(a + seq![c] + b) == a + seq!['_'] + b,
{
    let input = a + seq![c] + b;
    let out = a + seq!['_'] + b;
    assert(input[0] == a[0]);
    assert(input.last() == b[b.len() - 1]);
    lemma_trim_fixed(input, CharClass::WhiteSpace);
    reveal_strlit("_");
    assert("_"@ =~= seq!['_']);
    let m = masked(input);
    assert forall|i: int| 0 <= i < input.len() && i != a.len() implies m[i] == input[i] by {
        if i < a.len() {
            assert(input[i] == a[i]);
        } else {
            assert(input[i] == b[i - a.len() - 1]);
        }
    }
    assert(input[a.len() as int] == c);
    if is_sensitive(c) {
        assert(m =~= out);
        assert forall|i: int| 0 <= i < out.len() implies !is_white_space(#[trigger] out[i]) by {
            if i < a.len() {
                assert(out[i] == a[i]);
            } else if i > a.len() {
                assert(out[i] == b[i - a.len() - 1]);
            }
        }
        lemma_one_word(out);
        assert(join(words(m), "_"@) == out);
    } else {
        assert(m =~= input);
        let k = CharClass::WhiteSpace;
        lemma_split_concat(a, c, b, k);
        lemma_one_word(a);
        lemma_one_word(b);
        let pieces = split_by(input, k);
        assert(pieces =~= seq![a, b]);
        let keep = |w: Seq<char>| w.len() > 0;
        Seq::filter_distributes_over_add(seq![a], seq![b], keep);
        assert(seq![a] + seq![b] =~= pieces);
        assert(seq![a].filter(keep) == words(a));
        assert(seq![b].filter(keep) == words(b));
        assert(words(input) =~= seq![a, b]);
        assert(seq![a, b].drop_last() =~= seq![a]);
        assert(join(seq![a], "_"@) == a);
        assert(join(words(m), "_"@) =~= out);
    }
    assert(out[0] == a[0]);
    assert(out.last() == b.last());
    lemma_trim_fixed(out, CharClass::Exactly('_'));
}

/// Underscores and white space around a name do not belong to it.
pub proof fn names_lose_what_is_around_them(a: Seq<char>, name: Seq<char>, b: Seq<char>, c: char)
    requires
        c == '_' || is_white_space(c) && !is_sensitive(c),
        0 < name.len() <= 80,
        forall|i: int|
            0 <= i < name.len() ==> !is_sensitive(#[trigger] name[i]) && !is_white_space(name[i]),
        name[0] != '_',
        name.last() != '_',
        forall|i: int| 0 <= i < a.len() ==> #[trigger] a[i] == c,
        forall|i: int| 0 <= i < b.len() ==> #[trigger] b[i] == c,
    ensures
        folder_segment(a + name + b) == name,
{
    let input = a + name + b;
    if c == '_' {
        assert forall|i: int| 0 <= i < input.len() implies !is_white_space(#[trigger] input[i])
            && !is_sensitive(input[i]) by {
            if i < a.len() {
                assert(input[i] == a[i]);
            } else if i < a.len() + name.len() {
                assert(input[i] == name[i - a.len()]);
            } else {
                assert(input[i] == b[i - a.len() - name.len()]);
            }
        }
        assert(!is_white_space(input[0]) && !is_white_space(input[input.len() - 1]));
        lemma_trim_fixed(input, CharClass::WhiteSpace);
        assert(masked(input) =~= input);
        lemma_one_word(input);
        assert(join(words(input), "_"@) == input);
        let k = CharClass::Exactly('_');
        assert forall|i: int| 0 <= i < a.len() implies k.has(#[trigger] a[i]) by {}
        assert forall|i: int| 0 <= i < b.len() implies k.has(#[trigger] b[i]) by {}
        trimming_takes_only_the_ends(a, name, b, k);
    } else {
        let k = CharClass::WhiteSpace;
        assert forall|i: int| 0 <= i < a.len() implies k.has(#[trigger] a[i]) by {}
        assert forall|i: int| 0 <= i < b.len() implies k.has(#[trigger] b[i]) by {}
        assert(!is_white_space(name[0]) && !is_white_space(name[name.len() - 1]));
        trimming_takes_only_the_ends(a, name, b, k);
        lemma_trim_fixed(name, k);
        assert(trimmed(input) == trimmed(name));
        plain_names_are_kept(name);
    }
}

/// Of a plain name the first 80 characters are kept, and all of it where it is no longer.
pub proof fn long_names_are_cut(name: Seq<char>)
    requires
        name.len() >= 80,
        forall|i: int|
            0 <= i < name.len() ==> !is_sensitive(#[trigger] name[i]) && !is_white_space(name[i]),
        name[0] != '_',
        name.last() != '_',
    ensures
        folder_segment(name) == name.take(80),
{
    assert(!is_white_space(name[0]) && !is_white_space(name[name.len() - 1]));
    lemma_trim_fixed(name, CharClass::WhiteSpace);
    assert(masked(name) =~= name) by {
        assert forall|i: int| 0 <= i < name.len() implies masked(name)[i] == name[i] by {
            assert(!is_sensitive(name[i]));
        }
    }
    lemma_one_word(name);
    assert(join(words(name), "_"@) == name);
    lemma_trim_fixed(name, CharClass::Exactly('_'));
    assert(name.len() == 80 ==> name.take(80) =~= name);
}

} // verus!
