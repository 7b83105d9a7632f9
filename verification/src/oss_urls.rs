//! What holds of the URLs of uploaded objects.

use crate::oss_upload::all_safe;
use crate::oss_upload::all_unreserved;
use crate::oss_upload::bare_prefix;
use crate::oss_upload::base_path;
use crate::oss_upload::hex_upper;
use crate::oss_upload::is_unreserved;
use crate::oss_upload::object_key;
use crate::oss_upload::percent_byte;
use crate::oss_upload::percent_bytes;
use crate::oss_upload::public_base;
use crate::oss_upload::put_url;
use crate::oss_upload::relative_key;
use crate::oss_upload::resolved;
use crate::oss_upload::url_part;
use crate::oss_upload::url_path;
use crate::oss_upload::url_segment;
use crate::oss_upload::OssEnvironment;
use crate::oss_upload::OssUploadConfig;
use crate::oss_upload::ResolvedView;
use crate::text::is_ascii_letter_or_digit;
use crate::text::join;
use crate::text::lemma_split_by_nonempty;
use crate::text::lemma_split_concat;
use crate::text::lemma_split_single;
use crate::text::lemma_trim_by;
use crate::text::lemma_trim_fixed;
use crate::text::lemma_trim_start;
use crate::text::replaced;
use crate::text::split_by;
use crate::text::trimmed;
use crate::text::CharClass;
use vstd::prelude::*;
use vstd::utf8::char_is_scalar;
use vstd::utf8::encode_scalar;
use vstd::utf8::encode_utf8;
use vstd::utf8::encode_utf8_decode_utf8;
use vstd::utf8::has_width_1_encoding;
use vstd::utf8::has_width_2_encoding;
use vstd::utf8::has_width_3_encoding;

verus! {

/// The URL of an object whose key needs no encoding is the public URL of its batch with the key
/// inside the batch behind it, unless the batch has a public URL of its own.
pub proof fn object_lies_below_the_public_url(
    c: ResolvedView,
    run_id: Seq<char>,
    rel_key: Seq<char>,
)
    requires
        c.public_base_url is None,
        all_safe(object_key(c.prefix, run_id, rel_key)),
    ensures
        put_url(c.bucket, c.endpoint, object_key(c.prefix, run_id, rel_key)) == public_base(
            c,
            run_id,
        ) + rel_key,
{
    let id = trimmed(run_id);
    lemma_trim_by(run_id, CharClass::WhiteSpace);
    lemma_trim_fixed(id, CharClass::WhiteSpace);
    assert(trimmed(id) == id);
    let key = object_key(c.prefix, run_id, rel_key);
    let host = "https://"@ + c.bucket + "."@ + c.endpoint;
    assert(put_url(c.bucket, c.endpoint, key) =~= host + ("/"@ + key));
    assert("/"@ + key =~= base_path(c.prefix, id) + rel_key);
    assert(host + (base_path(c.prefix, id) + rel_key) =~= host + base_path(c.prefix, id) + rel_key);
}

/// Whatever a request asks for, its objects go to one bucket and below one prefix.
pub proof fn every_object_goes_to_the_fixed_target(
    config: OssUploadConfig,
    env: OssEnvironment,
    run_id: Seq<char>,
    rel_key: Seq<char>,
)
    ensures
        resolved(config, env) matches Ok(c) ==> {
            let key = object_key(c.prefix, run_id, rel_key);
            &&& put_url(c.bucket, c.endpoint, key)
                == "https://xuntian-pro-public.oss-cn-beijing.aliyuncs.com/"@ + url_path(key)
            &&& key == "xuntian/map/"@ + trimmed(run_id) + "/"@ + rel_key
        },
{
    reveal_strlit("https://");
    reveal_strlit("xuntian-pro-public");
    reveal_strlit(".");
    reveal_strlit("oss-cn-beijing.aliyuncs.com");
    reveal_strlit("/");
    reveal_strlit("xuntian/map");
    reveal_strlit("xuntian/map/");
    reveal_strlit("https://xuntian-pro-public.oss-cn-beijing.aliyuncs.com/");
    lemma_trim_fixed("xuntian/map"@, CharClass::Exactly('/'));
    assert(bare_prefix("xuntian/map"@) == "xuntian/map"@);
    let front = "https://"@ + "xuntian-pro-public"@ + "."@ + "oss-cn-beijing.aliyuncs.com"@ + "/"@;
    assert(front =~= "https://xuntian-pro-public.oss-cn-beijing.aliyuncs.com/"@);
    assert("xuntian/map"@ + "/"@ =~= "xuntian/map/"@);
}

/// A prefix stays as it is when it is normalised again.
pub proof fn normalised_prefix_is_stable(prefix: Seq<char>)
    ensures
        bare_prefix(bare_prefix(prefix)) == bare_prefix(prefix),
{
    lemma_trim_by(prefix, CharClass::Exactly('/'));
    lemma_trim_fixed(bare_prefix(prefix), CharClass::Exactly('/'));
}

/// A key inside a batch holds no backslash and does not begin with a slash.
pub proof fn relative_keys_are_clean(path: Seq<char>)
    ensures
        !relative_key(path).contains('\\'),
        relative_key(path).len() > 0 ==> relative_key(path)[0] != '/',
{
    let forward = replaced(path, '\\', '/');
    lemma_trim_start(forward, CharClass::Exactly('/'));
    let key = relative_key(path);
    assert forall|i: int| 0 <= i < key.len() implies key[i] != '\\' by {
        assert(key[i] == forward[forward.len() - key.len() + i]);
    }
}

/// A character that may stand in the path of a URL.
pub open spec fn is_url_char(c: char) -> bool {
    is_unreserved(c) || c == '/' || c == '%'
}

proof fn lemma_percent_byte(b: u8)
    ensures
        forall|i: int|
            0 <= i < percent_byte(b).len() ==> is_ascii_letter_or_digit(
                #[trigger] percent_byte(b)[i],
            ) || percent_byte(b)[i] == '%',
        percent_byte(b).len() > 0,
        percent_byte(b)[0] == '%' <==> !is_ascii_letter_or_digit(b as char),
{
    if !is_ascii_letter_or_digit(b as char) {
        assert(is_ascii_letter_or_digit(hex_upper(b as int / 16)));
        assert(is_ascii_letter_or_digit(hex_upper(b as int % 16)));
    }
}

proof fn lemma_percent_bytes(bytes: Seq<u8>)
    ensures
        forall|i: int|
            0 <= i < percent_bytes(bytes).len() ==> is_ascii_letter_or_digit(
                #[trigger] percent_bytes(bytes)[i],
            ) || percent_bytes(bytes)[i] == '%',
    decreases bytes.len(),
{
    if bytes.len() > 0 {
        lemma_percent_bytes(bytes.drop_last());
        lemma_percent_byte(bytes.last());
        let before = percent_bytes(bytes.drop_last());
        let last = percent_byte(bytes.last());
        assert forall|i: int| 0 <= i < percent_bytes(bytes).len() implies is_ascii_letter_or_digit(
            #[trigger] percent_bytes(bytes)[i],
        ) || percent_bytes(bytes)[i] == '%' by {
            if i < before.len() {
                assert(percent_bytes(bytes)[i] == before[i]);
            } else {
                assert(percent_bytes(bytes)[i] == last[i - before.len()]);
            }
        }
    }
}

proof fn lemma_percent_front(bytes: Seq<u8>)
    requires
        bytes.len() > 0,
    ensures
        percent_bytes(bytes) == percent_byte(bytes[0]) + percent_bytes(bytes.drop_first()),
    decreases bytes.len(),
{
    if bytes.len() == 1 {
        assert(bytes.drop_last() =~= Seq::<u8>::empty());
        assert(bytes.drop_first() =~= Seq::<u8>::empty());
        assert(percent_bytes(bytes.drop_last()) =~= Seq::<char>::empty());
        assert(percent_bytes(bytes.drop_first()) =~= Seq::<char>::empty());
        assert(percent_bytes(bytes) =~= percent_byte(bytes[0]));
    } else {
        let head = bytes.drop_last();
        let tail = bytes.drop_first();
        lemma_percent_front(head);
        assert(head.drop_first() =~= tail.drop_last());
        assert(percent_bytes(bytes) =~= percent_byte(bytes[0]) + (percent_bytes(tail.drop_last())
            + percent_byte(bytes.last())));
    }
}

proof fn lemma_hex_injective(m: int, n: int)
    requires
        0 <= m < 16,
        0 <= n < 16,
        hex_upper(m) == hex_upper(n),
    ensures
        m == n,
{
    let a = hex_upper(m) as u32;
    let b = hex_upper(n) as u32;
    assert(a == if m < 10 {
        48 + m
    } else {
        55 + m
    });
    assert(b == if n < 10 {
        48 + n
    } else {
        55 + n
    });
}

proof fn lemma_percent_byte_injective(a: u8, b: u8, rest_a: Seq<char>, rest_b: Seq<char>)
    requires
        percent_byte(a) + rest_a == percent_byte(b) + rest_b,
    ensures
        a == b,
        rest_a == rest_b,
{
    let x = percent_byte(a) + rest_a;
    let y = percent_byte(b) + rest_b;
    lemma_percent_byte(a);
    lemma_percent_byte(b);
    assert(x[0] == percent_byte(a)[0]);
    assert(y[0] == percent_byte(b)[0]);
    if is_ascii_letter_or_digit(a as char) {
        assert((a as char) as u32 == a as u32);
        assert((b as char) as u32 == b as u32);
        assert(x.skip(1) =~= rest_a);
        assert(y.skip(1) =~= rest_b);
    } else {
        assert(x[1] == percent_byte(a)[1] && x[2] == percent_byte(a)[2]);
        assert(y[1] == percent_byte(b)[1] && y[2] == percent_byte(b)[2]);
        lemma_hex_injective(a as int / 16, b as int / 16);
        lemma_hex_injective(a as int % 16, b as int % 16);
        assert(x.skip(3) =~= rest_a);
        assert(y.skip(3) =~= rest_b);
    }
}

proof fn lemma_percent_injective(a: Seq<u8>, b: Seq<u8>)
    requires
        percent_bytes(a) == percent_bytes(b),
    ensures
        a == b,
    decreases a.len() + b.len(),
{
    if a.len() == 0 || b.len() == 0 {
        let none = Seq::<u8>::empty();
        assert(percent_bytes(none).len() == 0);
        if a.len() > 0 {
            lemma_percent_front(a);
            lemma_percent_byte(a[0]);
            assert(b =~= none);
            assert(percent_bytes(a).len() > 0);
        }
        if b.len() > 0 {
            lemma_percent_front(b);
            lemma_percent_byte(b[0]);
            assert(a =~= none);
            assert(percent_bytes(b).len() > 0);
        }
        assert(a =~= b);
    } else {
        lemma_percent_front(a);
        lemma_percent_front(b);
        lemma_percent_byte_injective(
            a[0],
            b[0],
            percent_bytes(a.drop_first()),
            percent_bytes(b.drop_first()),
        );
        lemma_percent_injective(a.drop_first(), b.drop_first());
        assert(a =~= seq![a[0]] + a.drop_first());
        assert(b =~= seq![b[0]] + b.drop_first());
    }
}

proof fn lemma_first_byte(c: char)
    ensures
        encode_scalar(c as u32).len() > 0,
        is_ascii_letter_or_digit(encode_scalar(c as u32)[0] as char) ==> encode_scalar(
            c as u32,
        )[0] as char == c,
{
    char_is_scalar(c);
    let v = c as u32;
    let first = encode_scalar(v)[0];
    if has_width_1_encoding(v) {
        assert((v & 0x7F) as u8 == v) by (bit_vector)
            requires
                v <= 0x7F,
        ;
    } else if has_width_2_encoding(v) {
        assert((0xC0u8 | ((v >> 6) & 0x1F) as u8) >= 0xC0u8) by (bit_vector);
    } else if has_width_3_encoding(v) {
        assert((0xE0u8 | ((v >> 12) & 0x0F) as u8) >= 0xC0u8) by (bit_vector);
    } else {
        assert((0xF0u8 | ((v >> 18) & 0x7) as u8) >= 0xC0u8) by (bit_vector);
    }
    assert((first as char) as u32 == first as u32);
}

proof fn lemma_encoded_has_percent(seg: Seq<char>)
    requires
        !all_unreserved(seg),
    ensures
        percent_bytes(encode_utf8(seg)).contains('%'),
    decreases seg.len(),
{
    let bytes = encode_utf8(seg);
    let c = seg[0];
    let code = encode_scalar(c as u32);
    let rest = encode_utf8(seg.drop_first());
    assert(bytes == code + rest);
    lemma_first_byte(c);
    lemma_percent_front(bytes);
    lemma_percent_byte(bytes[0]);
    assert(bytes[0] == code[0]);
    if !is_ascii_letter_or_digit(bytes[0] as char) {
        assert(percent_bytes(bytes)[0] == '%');
    } else {
        assert(bytes[0] as char == c);
        assert(has_width_1_encoding(c as u32)) by {
            assert((bytes[0] as char) as u32 == bytes[0] as u32);
        }
        assert(bytes.drop_first() =~= rest);
        let i = choose|i: int| 0 <= i < seg.len() && !is_unreserved(seg[i]);
        assert(seg.drop_first()[i - 1] == seg[i]);
        lemma_encoded_has_percent(seg.drop_first());
        let k = choose|k: int|
            0 <= k < percent_bytes(rest).len() && percent_bytes(rest)[k] == '%';
        let n = percent_byte(bytes[0]).len();
        assert(percent_bytes(bytes)[n + k] == '%');
    }
}

proof fn lemma_join_split(s: Seq<char>, sep: char)
    ensures
        join(split_by(s, CharClass::Exactly(sep)), seq![sep]) == s,
    decreases s.len(),
{
    let k = CharClass::Exactly(sep);
    if s.len() > 0 {
        let head = s.drop_last();
        let before = split_by(head, k);
        lemma_split_by_nonempty(head, k);
        lemma_join_split(head, sep);
        let parts = split_by(s, k);
        if k.has(s.last()) {
            assert(parts.drop_last() =~= before);
            assert(join(parts, seq![sep]) =~= s);
        } else {
            assert(parts.drop_last() =~= before.drop_last());
            assert(join(parts, seq![sep]) =~= join(before, seq![sep]).push(s.last()));
            assert(head.push(s.last()) =~= s);
        }
    }
}

proof fn lemma_split_join(parts: Seq<Seq<char>>, sep: char)
    requires
        parts.len() > 0,
        forall|i: int| 0 <= i < parts.len() ==> !(#[trigger] parts[i]).contains(sep),
    ensures
        split_by(join(parts, seq![sep]), CharClass::Exactly(sep)) == parts,
    decreases parts.len(),
{
    let k = CharClass::Exactly(sep);
    let last = parts.last();
    assert(!parts[parts.len() - 1].contains(sep));
    assert forall|i: int| 0 <= i < last.len() implies !k.has(#[trigger] last[i]) by {
        if last[i] == sep {
            assert(last.contains(sep));
        }
    }
    lemma_split_single(last, k);
    if parts.len() > 1 {
        let head = parts.drop_last();
        assert forall|i: int| 0 <= i < head.len() implies !(#[trigger] head[i]).contains(sep) by {
            assert(head[i] == parts[i]);
        }
        lemma_split_join(head, sep);
        lemma_split_concat(join(head, seq![sep]), sep, last, k);
        assert(head + seq![last] =~= parts);
    } else {
        assert(seq![last] =~= parts);
    }
}

proof fn lemma_pieces(s: Seq<char>, sep: char, i: int, j: int)
    requires
        0 <= i < split_by(s, CharClass::Exactly(sep)).len(),
        0 <= j < split_by(s, CharClass::Exactly(sep))[i].len(),
    ensures
        split_by(s, CharClass::Exactly(sep))[i][j] != sep,
        s.contains(split_by(s, CharClass::Exactly(sep))[i][j]),
    decreases s.len(),
{
    let k = CharClass::Exactly(sep);
    if s.len() > 0 {
        let head = s.drop_last();
        let before = split_by(head, k);
        lemma_split_by_nonempty(head, k);
        let parts = split_by(s, k);
        let c = parts[i][j];
        if i < before.len() && j < before[i].len() {
            lemma_pieces(head, sep, i, j);
            assert(before[i][j] == c);
            let p = choose|p: int| 0 <= p < head.len() && head[p] == c;
            assert(s[p] == c);
        } else {
            assert(c == s.last());
            assert(s[s.len() - 1] == c);
        }
    }
}

proof fn lemma_char_in_pieces(s: Seq<char>, sep: char, i: int)
    requires
        0 <= i < s.len(),
        s[i] != sep,
    ensures
        exists|p: int|
            0 <= p < split_by(s, CharClass::Exactly(sep)).len() && (#[trigger] split_by(
                s,
                CharClass::Exactly(sep),
            )[p]).contains(s[i]),
    decreases s.len(),
{
    let k = CharClass::Exactly(sep);
    let head = s.drop_last();
    let before = split_by(head, k);
    let parts = split_by(s, k);
    lemma_split_by_nonempty(head, k);
    if i < s.len() - 1 {
        lemma_char_in_pieces(head, sep, i);
        let p = choose|p: int| 0 <= p < before.len() && (#[trigger] before[p]).contains(head[i]);
        let q = choose|q: int| 0 <= q < before[p].len() && before[p][q] == s[i];
        assert(parts[p][q] == s[i]);
        assert(parts[p].contains(s[i]));
    } else {
        let p = parts.len() - 1;
        assert(parts[p].last() == s[i]);
        assert(parts[p].contains(s[i]));
    }
}

/// The parts of a segment between its dots, as they stand in a URL where one of them needs it.
spec fn encoded_dots(seg: Seq<char>) -> Seq<Seq<char>> {
    split_by(seg, CharClass::Exactly('.')).map_values(|part: Seq<char>| url_part(part))
}

proof fn lemma_encoded_segment(seg: Seq<char>)
    requires
        !all_unreserved(seg),
    ensures
        url_segment(seg) == join(encoded_dots(seg), seq!['.']),
        split_by(url_segment(seg), CharClass::Exactly('.')) == encoded_dots(seg),
        encoded_dots(seg).len() == split_by(seg, CharClass::Exactly('.')).len(),
{
    reveal_strlit(".");
    assert("."@ =~= seq!['.']);
    let parts = split_by(seg, CharClass::Exactly('.'));
    let encoded = encoded_dots(seg);
    lemma_split_by_nonempty(seg, CharClass::Exactly('.'));
    assert forall|i: int| 0 <= i < encoded.len() implies !(#[trigger] encoded[i]).contains(
        '.',
    ) by {
        lemma_percent_bytes(encode_utf8(parts[i]));
        assert(encoded[i] == url_part(parts[i]));
    }
    lemma_split_join(encoded, '.');
}

proof fn lemma_segment_chars(seg: Seq<char>)
    ensures
        forall|i: int|
            0 <= i < url_segment(seg).len() ==> is_unreserved(#[trigger] url_segment(seg)[i])
                || url_segment(seg)[i] == '%',
{
    if !all_unreserved(seg) {
        let text = url_segment(seg);
        let parts = split_by(seg, CharClass::Exactly('.'));
        let encoded = encoded_dots(seg);
        lemma_encoded_segment(seg);
        assert forall|i: int| 0 <= i < text.len() implies is_unreserved(#[trigger] text[i])
            || text[i] == '%' by {
            if text[i] != '.' {
                lemma_char_in_pieces(text, '.', i);
                let p = choose|p: int|
                    0 <= p < encoded.len() && (#[trigger] encoded[p]).contains(text[i]);
                lemma_percent_bytes(encode_utf8(parts[p]));
                assert(encoded[p] == url_part(parts[p]));
            }
        }
    }
}

proof fn lemma_encoded_segment_has_percent(seg: Seq<char>)
    requires
        !all_unreserved(seg),
    ensures
        url_segment(seg).contains('%'),
{
    let k = CharClass::Exactly('.');
    let parts = split_by(seg, k);
    let encoded = encoded_dots(seg);
    lemma_encoded_segment(seg);
    let i = choose|i: int| 0 <= i < seg.len() && !is_unreserved(#[trigger] seg[i]);
    lemma_char_in_pieces(seg, '.', i);
    let p = choose|p: int| 0 <= p < parts.len() && (#[trigger] parts[p]).contains(seg[i]);
    let q = choose|q: int| 0 <= q < parts[p].len() && parts[p][q] == seg[i];
    assert(!is_unreserved(parts[p][q]));
    lemma_encoded_has_percent(parts[p]);
    assert(encoded[p] == url_part(parts[p]));
    let j = choose|j: int| 0 <= j < encoded[p].len() && encoded[p][j] == '%';
    lemma_pieces(url_segment(seg), '.', p, j);
}

proof fn lemma_encoded_injective(a: Seq<char>, b: Seq<char>)
    requires
        !all_unreserved(a),
        !all_unreserved(b),
        url_segment(a) == url_segment(b),
    ensures
        a == b,
{
    let x = split_by(a, CharClass::Exactly('.'));
    let y = split_by(b, CharClass::Exactly('.'));
    lemma_encoded_segment(a);
    lemma_encoded_segment(b);
    assert forall|i: int| 0 <= i < x.len() implies x[i] == y[i] by {
        assert(encoded_dots(a)[i] == url_part(x[i]));
        assert(encoded_dots(b)[i] == url_part(y[i]));
        lemma_percent_injective(encode_utf8(x[i]), encode_utf8(y[i]));
        encode_utf8_decode_utf8(x[i]);
        encode_utf8_decode_utf8(y[i]);
    }
    assert(x =~= y);
    lemma_join_split(a, '.');
    lemma_join_split(b, '.');
}

proof fn lemma_segment_injective(a: Seq<char>, b: Seq<char>)
    requires
        url_segment(a) == url_segment(b),
    ensures
        a == b,
{
    if all_unreserved(a) != all_unreserved(b) {
        let plain = if all_unreserved(a) {
            a
        } else {
            b
        };
        let other = if all_unreserved(a) {
            b
        } else {
            a
        };
        lemma_encoded_segment_has_percent(other);
        let k = choose|k: int| 0 <= k < plain.len() && plain[k] == '%';
        assert(is_unreserved(plain[k]));
    } else if !all_unreserved(a) {
        lemma_encoded_injective(a, b);
    }
}

spec fn encoded_parts(key: Seq<char>) -> Seq<Seq<char>> {
    split_by(key, CharClass::Exactly('/')).map_values(|seg: Seq<char>| url_segment(seg))
}

proof fn lemma_url_path(key: Seq<char>)
    ensures
        url_path(key) == join(encoded_parts(key), "/"@),
        split_by(url_path(key), CharClass::Exactly('/')) == encoded_parts(key),
{
    reveal_strlit("/");
    assert("/"@ =~= seq!['/']);
    let k = CharClass::Exactly('/');
    let parts = split_by(key, k);
    lemma_split_by_nonempty(key, k);
    if all_safe(key) {
        assert forall|i: int| 0 <= i < parts.len() implies url_segment(#[trigger] parts[i])
            == parts[i] by {
            assert forall|j: int| 0 <= j < parts[i].len() implies is_unreserved(
                #[trigger] parts[i][j],
            ) by {
                lemma_pieces(key, '/', i, j);
                let p = choose|p: int| 0 <= p < key.len() && key[p] == parts[i][j];
                assert(is_unreserved(key[p]) || key[p] == '/');
            }
        }
        assert(encoded_parts(key) =~= parts);
        lemma_join_split(key, '/');
    }
    let encoded = encoded_parts(key);
    assert forall|i: int| 0 <= i < encoded.len() implies !(#[trigger] encoded[i]).contains(
        '/',
    ) by {
        lemma_segment_chars(parts[i]);
        assert(encoded[i] == url_segment(parts[i]));
    }
    lemma_split_join(encoded, '/');
}

/// The path of a URL holds only characters that may stand there: letters, digits, a few signs, and
/// percent signs, with slashes between its segments.
pub proof fn urls_hold_only_url_chars(key: Seq<char>, i: int)
    requires
        0 <= i < url_path(key).len(),
    ensures
        is_url_char(url_path(key)[i]),
{
    let k = CharClass::Exactly('/');
    let path = url_path(key);
    lemma_url_path(key);
    if path[i] != '/' {
        lemma_char_in_pieces(path, '/', i);
        let parts = split_by(path, k);
        let p = choose|p: int| 0 <= p < parts.len() && (#[trigger] parts[p]).contains(path[i]);
        let seg = split_by(key, k)[p];
        lemma_segment_chars(seg);
        assert(parts[p] == url_segment(seg));
    }
}

/// Objects with different keys have different URLs: no file of a batch takes the place of another.
pub proof fn different_keys_have_different_urls(
    bucket: Seq<char>,
    endpoint: Seq<char>,
    a: Seq<char>,
    b: Seq<char>,
)
    requires
        put_url(bucket, endpoint, a) == put_url(bucket, endpoint, b),
    ensures
        a == b,
{
    let k = CharClass::Exactly('/');
    let front = "https://"@ + bucket + "."@ + endpoint + "/"@;
    let n = front.len() as int;
    assert(put_url(bucket, endpoint, a).skip(n) =~= url_path(a));
    assert(put_url(bucket, endpoint, b).skip(n) =~= url_path(b));
    lemma_url_path(a);
    lemma_url_path(b);
    let x = split_by(a, k);
    let y = split_by(b, k);
    assert(encoded_parts(a).len() == x.len());
    assert(encoded_parts(b).len() == y.len());
    assert forall|i: int| 0 <= i < x.len() implies x[i] == y[i] by {
        assert(encoded_parts(a)[i] == url_segment(x[i]));
        assert(encoded_parts(b)[i] == url_segment(y[i]));
        lemma_segment_injective(x[i], y[i]);
    }
    assert(x =~= y);
    lemma_join_split(a, '/');
    lemma_join_split(b, '/');
}

/// The path of a URL holds the letters and digits of ASCII, dots, underscores, hyphens and tildes,
/// slashes and percent signs, and no other character.
pub proof fn urls_hold_no_other_sign(key: Seq<char>, i: int)
    requires
        0 <= i < url_path(key).len(),
    ensures
        ({
            let c = url_path(key)[i];
            ||| '0' <= c <= '9'
            ||| 'a' <= c <= 'z'
            ||| 'A' <= c <= 'Z'
            ||| c == '.'
            ||| c == '_'
            ||| c == '-'
            ||| c == '~'
            ||| c == '/'
            ||| c == '%'
        }),
{
    urls_hold_only_url_chars(key, i);
}

/// A key that holds nothing but letters, digits, dots, underscores, hyphens, tildes and slashes
/// stands in its URL as it is, behind the host of the bucket.
pub proof fn safe_keys_stand_in_their_urls(bucket: Seq<char>, endpoint: Seq<char>, key: Seq<char>)
    requires
        forall|i: int|
            0 <= i < key.len() ==> {
                let c = #[trigger] key[i];
                ||| '0' <= c <= '9'
                ||| 'a' <= c <= 'z'
                ||| 'A' <= c <= 'Z'
                ||| c == '.'
                ||| c == '_'
                ||| c == '-'
                ||| c == '~'
                ||| c == '/'
            },
    ensures
        put_url(bucket, endpoint, key) == "https://"@ + bucket + "."@ + endpoint + "/"@ + key,
{
    assert(all_safe(key));
}

/// The number of a hexadecimal digit.
pub open spec fn hex_number(c: char) -> int {
    if c <= '9' {
        c as int - 48
    } else {
        c as int - 55
    }
}

/// The bytes that the path of a URL stands for: a percent sign and two digits for one byte, any other
/// character for itself.
pub open spec fn percent_decoded(s: Seq<char>) -> Seq<u8>
    decreases s.len(),
{
    if s.len() == 0 {
        Seq::empty()
    } else if s[0] == '%' && s.len() >= 3 {
        seq![(16 * hex_number(s[1]) + hex_number(s[2])) as u8] + percent_decoded(s.skip(3))
    } else {
        seq![s[0] as u8] + percent_decoded(s.skip(1))
    }
}

/// Whatever follows, the first text is read as the second.
spec fn reads_as(e: Seq<char>, s: Seq<char>) -> bool {
    forall|t: Seq<char>| #[trigger]
        percent_decoded(e + t) == encode_utf8(s) + percent_decoded(t)
}

proof fn lemma_read_byte(b: u8, t: Seq<char>)
    ensures
        percent_decoded(percent_byte(b) + t) == seq![b] + percent_decoded(t),
{
    let s = percent_byte(b) + t;
    lemma_percent_byte(b);
    if is_ascii_letter_or_digit(b as char) {
        assert((b as char) as u32 == b as u32);
        assert(s[0] == b as char);
        assert(s.skip(1) =~= t);
    } else {
        let hi = b as int / 16;
        let lo = b as int % 16;
        assert(s[0] == '%' && s[1] == hex_upper(hi) && s[2] == hex_upper(lo));
        assert(hex_number(hex_upper(hi)) == hi);
        assert(hex_number(hex_upper(lo)) == lo);
        assert(s.skip(3) =~= t);
    }
}

proof fn lemma_read_bytes(bytes: Seq<u8>, t: Seq<char>)
    ensures
        percent_decoded(percent_bytes(bytes) + t) == bytes + percent_decoded(t),
    decreases bytes.len(),
{
    if bytes.len() == 0 {
        assert(percent_bytes(bytes) + t =~= t);
        assert(bytes + percent_decoded(t) =~= percent_decoded(t));
    } else {
        let rest = bytes.drop_first();
        lemma_percent_front(bytes);
        lemma_read_bytes(rest, t);
        let more = percent_bytes(rest) + t;
        assert(percent_bytes(bytes) + t =~= percent_byte(bytes[0]) + more);
        lemma_read_byte(bytes[0], more);
        assert(bytes + percent_decoded(t) =~= seq![bytes[0]] + (rest + percent_decoded(t)));
    }
}

proof fn lemma_encode_concat(a: Seq<char>, b: Seq<char>)
    ensures
        encode_utf8(a + b) == encode_utf8(a) + encode_utf8(b),
    decreases a.len(),
{
    if a.len() == 0 {
        assert(a + b =~= b);
        assert(encode_utf8(a) + encode_utf8(b) =~= encode_utf8(b));
    } else {
        assert((a + b).drop_first() =~= a.drop_first() + b);
        lemma_encode_concat(a.drop_first(), b);
        let first = encode_scalar(a[0] as u32);
        assert((a + b)[0] == a[0]);
        assert(first + (encode_utf8(a.drop_first()) + encode_utf8(b)) =~= encode_utf8(a)
            + encode_utf8(b));
    }
}

proof fn lemma_encode_ascii(c: char)
    requires
        c <= '\u{7f}',
    ensures
        encode_utf8(seq![c]) == seq![c as u8],
{
    let v = c as u32;
    assert(seq![c].drop_first() =~= Seq::<char>::empty());
    assert(encode_utf8(seq![c].drop_first()) =~= Seq::<u8>::empty());
    assert((v & 0x7F) as u8 == v) by (bit_vector)
        requires
            v <= 0x7F,
    ;
    assert(encode_scalar(v) =~= seq![c as u8]);
    assert(encode_utf8(seq![c]) =~= seq![c as u8]);
}

proof fn lemma_plain_reads_as_itself(s: Seq<char>, t: Seq<char>)
    requires
        forall|i: int| 0 <= i < s.len() ==> #[trigger] s[i] <= '\u{7f}' && s[i] != '%',
    ensures
        percent_decoded(s + t) == encode_utf8(s) + percent_decoded(t),
    decreases s.len(),
{
    if s.len() == 0 {
        assert(s + t =~= t);
        assert(encode_utf8(s) + percent_decoded(t) =~= percent_decoded(t));
    } else {
        let rest = s.drop_first();
        assert forall|i: int| 0 <= i < rest.len() implies #[trigger] rest[i] <= '\u{7f}' && rest[i]
            != '%' by {
            assert(rest[i] == s[i + 1]);
        }
        lemma_plain_reads_as_itself(rest, t);
        assert((s + t)[0] == s[0]);
        assert((s + t).skip(1) =~= rest + t);
        lemma_encode_ascii(s[0]);
        lemma_encode_concat(seq![s[0]], rest);
        assert(seq![s[0]] + rest =~= s);
        assert(encode_utf8(s) + percent_decoded(t) =~= seq![s[0] as u8] + (encode_utf8(rest)
            + percent_decoded(t)));
    }
}

proof fn lemma_joined_reads_as(enc: Seq<Seq<char>>, parts: Seq<Seq<char>>, sep: char)
    requires
        enc.len() == parts.len(),
        parts.len() > 0,
        sep <= '\u{7f}',
        sep != '%',
        forall|i: int| 0 <= i < parts.len() ==> reads_as(#[trigger] enc[i], parts[i]),
    ensures
        reads_as(join(enc, seq![sep]), join(parts, seq![sep])),
    decreases parts.len(),
{
    let n = parts.len() - 1;
    assert(reads_as(enc[n], parts[n]));
    if n > 0 {
        let a = enc.drop_last();
        let b = parts.drop_last();
        assert forall|i: int| 0 <= i < b.len() implies reads_as(#[trigger] a[i], b[i]) by {
            assert(reads_as(enc[i], parts[i]));
        }
        lemma_joined_reads_as(a, b, sep);
        let x = join(a, seq![sep]);
        let y = join(b, seq![sep]);
        assert forall|t: Seq<char>| #[trigger]
            percent_decoded(join(enc, seq![sep]) + t) == encode_utf8(join(parts, seq![sep]))
                + percent_decoded(t) by {
            let more = seq![sep] + (enc[n] + t);
            assert(join(enc, seq![sep]) + t =~= x + more);
            assert(percent_decoded(x + more) == encode_utf8(y) + percent_decoded(more));
            lemma_plain_reads_as_itself(seq![sep], enc[n] + t);
            assert(percent_decoded(enc[n] + t) == encode_utf8(parts[n]) + percent_decoded(t));
            lemma_encode_concat(y, seq![sep]);
            lemma_encode_concat(y + seq![sep], parts[n]);
            assert(join(parts, seq![sep]) =~= y + seq![sep] + parts[n]);
            assert(encode_utf8(y) + (encode_utf8(seq![sep]) + (encode_utf8(parts[n])
                + percent_decoded(t))) =~= encode_utf8(y) + encode_utf8(seq![sep]) + encode_utf8(
                parts[n],
            ) + percent_decoded(t));
        }
    }
}

proof fn lemma_segment_reads_as(seg: Seq<char>)
    ensures
        reads_as(url_segment(seg), seg),
{
    if all_unreserved(seg) {
        assert forall|t: Seq<char>| #[trigger]
            percent_decoded(url_segment(seg) + t) == encode_utf8(seg) + percent_decoded(t) by {
            assert forall|i: int| 0 <= i < seg.len() implies #[trigger] seg[i] <= '\u{7f}' && seg[i]
                != '%' by {
                assert(is_unreserved(seg[i]));
            }
            lemma_plain_reads_as_itself(seg, t);
        }
    } else {
        let parts = split_by(seg, CharClass::Exactly('.'));
        let enc = encoded_dots(seg);
        lemma_encoded_segment(seg);
        lemma_split_by_nonempty(seg, CharClass::Exactly('.'));
        assert forall|i: int| 0 <= i < parts.len() implies reads_as(#[trigger] enc[i], parts[i]) by {
            assert(enc[i] == url_part(parts[i]));
            assert forall|t: Seq<char>| #[trigger]
                percent_decoded(enc[i] + t) == encode_utf8(parts[i]) + percent_decoded(t) by {
                lemma_read_bytes(encode_utf8(parts[i]), t);
            }
        }
        lemma_joined_reads_as(enc, parts, '.');
        lemma_join_split(seg, '.');
    }
}

/// A server that decodes the path of a URL gets the key that the URL was made for, byte by byte.
pub proof fn url_decodes_to_its_key(key: Seq<char>)
    ensures
        percent_decoded(url_path(key)) == encode_utf8(key),
{
    let k = CharClass::Exactly('/');
    let parts = split_by(key, k);
    let enc = encoded_parts(key);
    reveal_strlit("/");
    assert("/"@ =~= seq!['/']);
    lemma_url_path(key);
    lemma_split_by_nonempty(key, k);
    assert forall|i: int| 0 <= i < parts.len() implies reads_as(#[trigger] enc[i], parts[i]) by {
        lemma_segment_reads_as(parts[i]);
        assert(enc[i] == url_segment(parts[i]));
    }
    lemma_joined_reads_as(enc, parts, '/');
    lemma_join_split(key, '/');
    let none = Seq::<char>::empty();
    assert(url_path(key) + none =~= url_path(key));
    assert(percent_decoded(url_path(key) + none) == encode_utf8(key) + percent_decoded(none));
    assert(encode_utf8(key) + percent_decoded(none) =~= encode_utf8(key));
}

/// A URL keeps the slashes of its key, and the dots between them: it has as many segments, and each
/// has as many parts between its dots, as the key.
pub proof fn urls_keep_slashes_and_dots(key: Seq<char>, i: int)
    ensures
        split_by(url_path(key), CharClass::Exactly('/')).len() == split_by(
            key,
            CharClass::Exactly('/'),
        ).len(),
        0 <= i < split_by(key, CharClass::Exactly('/')).len() ==> split_by(
            split_by(url_path(key), CharClass::Exactly('/'))[i],
            CharClass::Exactly('.'),
        ).len() == split_by(split_by(key, CharClass::Exactly('/'))[i], CharClass::Exactly('.')).len(),
{
    lemma_url_path(key);
    let parts = split_by(key, CharClass::Exactly('/'));
    if 0 <= i < parts.len() {
        assert(encoded_parts(key)[i] == url_segment(parts[i]));
        if !all_unreserved(parts[i]) {
            lemma_encoded_segment(parts[i]);
        }
    }
}

/// A segment of a key that needs no encoding stays as it is, whatever the others need; in one that
/// does, all but letters, digits and dots is encoded.
pub proof fn segments_are_encoded_one_by_one(key: Seq<char>, i: int)
    requires
        0 <= i < split_by(key, CharClass::Exactly('/')).len(),
    ensures
        ({
            let seg = split_by(key, CharClass::Exactly('/'))[i];
            let out = split_by(url_path(key), CharClass::Exactly('/'))[i];
            let plain = forall|j: int|
                0 <= j < seg.len() ==> {
                    let c = #[trigger] seg[j];
                    ||| '0' <= c <= '9'
                    ||| 'a' <= c <= 'z'
                    ||| 'A' <= c <= 'Z'
                    ||| c == '.'
                    ||| c == '_'
                    ||| c == '-'
                    ||| c == '~'
                };
            &&& plain ==> out == seg
            &&& !plain ==> forall|j: int|
                0 <= j < out.len() ==> {
                    let c = #[trigger] out[j];
                    ||| '0' <= c <= '9'
                    ||| 'a' <= c <= 'z'
                    ||| 'A' <= c <= 'Z'
                    ||| c == '.'
                    ||| c == '%'
                }
        }),
{
    lemma_url_path(key);
    let seg = split_by(key, CharClass::Exactly('/'))[i];
    let out = split_by(url_path(key), CharClass::Exactly('/'))[i];
    assert(encoded_parts(key)[i] == url_segment(seg));
    if all_unreserved(seg) {
        assert forall|j: int| 0 <= j < seg.len() implies {
            let c = #[trigger] seg[j];
            ||| '0' <= c <= '9'
            ||| 'a' <= c <= 'z'
            ||| 'A' <= c <= 'Z'
            ||| c == '.'
            ||| c == '_'
            ||| c == '-'
            ||| c == '~'
        } by {
            assert(is_unreserved(seg[j]));
        }
    } else {
        let parts = split_by(seg, CharClass::Exactly('.'));
        let encoded = encoded_dots(seg);
        lemma_encoded_segment(seg);
        let k = choose|k: int| 0 <= k < seg.len() && !is_unreserved(#[trigger] seg[k]);
        assert(!is_unreserved(seg[k]));
        assert forall|j: int| 0 <= j < out.len() implies {
            let c = #[trigger] out[j];
            ||| '0' <= c <= '9'
            ||| 'a' <= c <= 'z'
            ||| 'A' <= c <= 'Z'
            ||| c == '.'
            ||| c == '%'
        } by {
            if out[j] != '.' {
                lemma_char_in_pieces(out, '.', j);
                let p = choose|p: int|
                    0 <= p < encoded.len() && (#[trigger] encoded[p]).contains(out[j]);
                lemma_percent_bytes(encode_utf8(parts[p]));
                assert(encoded[p] == url_part(parts[p]));
            }
        }
    }
}

} // verus!
