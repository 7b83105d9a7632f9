//! Where tiles are uploaded to: the fixed target, object keys and URLs.

use crate::text::begins_with;
use crate::text::chars_of;
use crate::text::concat4;
use crate::text::copy_opt;
use crate::text::is_ascii_letter_or_digit;
use crate::text::join;
use crate::text::join_with;
use crate::text::lemma_trim_by;
use crate::text::lemma_trim_fixed;
use crate::text::lemma_trim_start;
use crate::text::opt_text;
use crate::text::push_text;
use crate::text::replaced;
use crate::text::replace_char;
use crate::text::split;
use crate::text::split_by;
use crate::text::strip_repeated;
use crate::text::strip_start;
use crate::text::texts;
use crate::text::trim;
use crate::text::trimmed;
use crate::text::trim_both;
use crate::text::trim_by;
use crate::text::trim_end;
use crate::text::trim_end_by;
use crate::text::trim_start;
use crate::text::trim_start_by;
use crate::text::CharClass;
use crate::text::trimming_takes_only_the_ends;
use percent_encoding::utf8_percent_encode;
use percent_encoding::NON_ALPHANUMERIC;
use vstd::prelude::*;
use vstd::utf8::encode_utf8;

verus! {

/// The upload settings of a request.
#[derive(Debug, Clone)]
pub struct OssUploadConfig {
    pub enabled: bool,
    pub bucket: Option<String>,
    pub prefix: Option<String>,
    pub endpoint: Option<String>,
    pub region: Option<String>,
    pub fail_task_on_error: bool,
    pub access_key_id: Option<String>,
    pub access_key_secret: Option<String>,
    pub security_token: Option<String>,
    pub public_base_url: Option<String>,
}

/// The credentials that the environment of the process holds.
#[derive(Debug, Clone)]
pub struct OssEnvironment {
    pub access_key_id: Option<String>,
    pub access_key_secret: Option<String>,
    pub security_token: Option<String>,
}

/// The target and the credentials of an upload.
#[derive(Debug, Clone)]
pub struct OssResolvedConfig {
    pub bucket: String,
    pub prefix: String,
    pub endpoint: String,
    pub access_key_id: String,
    pub access_key_secret: String,
    pub security_token: Option<String>,
    pub public_base_url: Option<String>,
}

/// The content of an [`OssResolvedConfig`].
pub ghost struct ResolvedView {
    pub bucket: Seq<char>,
    pub prefix: Seq<char>,
    pub endpoint: Seq<char>,
    pub access_key_id: Seq<char>,
    pub access_key_secret: Seq<char>,
    pub security_token: Option<Seq<char>>,
    pub public_base_url: Option<Seq<char>>,
}

impl View for OssResolvedConfig {
    type V = ResolvedView;

    open spec fn view(&self) -> ResolvedView {
        ResolvedView {
            bucket: self.bucket@,
            prefix: self.prefix@,
            endpoint: self.endpoint@,
            access_key_id: self.access_key_id@,
            access_key_secret: self.access_key_secret@,
            security_token: opt_text(self.security_token),
            public_base_url: opt_text(self.public_base_url),
        }
    }
}

/// The text of the request, or else that of the environment.
pub open spec fn first_of(request: Option<String>, environment: Option<String>) -> Option<Seq<char>> {
    match request {
        Some(s) => Some(s@),
        None => opt_text(environment),
    }
}

/// The upload goes to one bucket below one prefix, whatever the request says; only the
/// credentials come from the request or the environment. The error tells which is missing.
pub open spec fn resolved(config: OssUploadConfig, env: OssEnvironment) -> Result<
    ResolvedView,
    Seq<char>,
> {
    match first_of(config.access_key_id, env.access_key_id) {
        None => Err("缺少 OSS AccessKeyId（uploadConfig 或 OSS_ACCESS_KEY_ID）"@),
        Some(id) => match first_of(config.access_key_secret, env.access_key_secret) {
            None => Err("缺少 OSS AccessKeySecret（uploadConfig 或 OSS_ACCESS_KEY_SECRET）"@),
            Some(secret) => Ok(
                ResolvedView {
                    bucket: "xuntian-pro-public"@,
                    prefix: "xuntian/map"@,
                    endpoint: "oss-cn-beijing.aliyuncs.com"@,
                    access_key_id: id,
                    access_key_secret: secret,
                    security_token: first_of(config.security_token, env.security_token),
                    public_base_url: None,
                },
            ),
        },
    }
}

/// The view of a result of [`resolve_config`].
pub open spec fn resolved_result(r: Result<OssResolvedConfig, String>) -> Result<
    ResolvedView,
    Seq<char>,
> {
    match r {
        Ok(c) => Ok(c@),
        Err(e) => Err(e@),
    }
}

fn pick(request: &Option<String>, environment: &Option<String>) -> (r: Option<String>)
    ensures
        opt_text(r) == first_of(*request, *environment),
{
    match request {
        Some(s) => Some(s.clone()),
        None => copy_opt(environment),
    }
}

/// The prefix without slashes at either end.
pub open spec fn bare_prefix(prefix: Seq<char>) -> Seq<char> {
    trim_by(prefix, CharClass::Exactly('/'))
}

/// The prefix without slashes at either end.
pub fn normalize_prefix(prefix: &str) -> (r: String)
    ensures
        r@ == bare_prefix(prefix@),
{
    trim_both(prefix, CharClass::Exactly('/'))
}

/// A host name without white space around it, without schemes before it and slashes behind it.
pub open spec fn bare_endpoint(raw: Seq<char>) -> Seq<char> {
    trim_end_by(
        strip_repeated(strip_repeated(trimmed(raw), "https://"@), "http://"@),
        CharClass::Exactly('/'),
    )
}

/// The host name without white space, schemes and slashes around it.
pub fn normalize_endpoint(raw: &str) -> (r: String)
    ensures
        r@ == bare_endpoint(raw@),
{
    let inner = trim(raw);
    let no_https = strip_start(inner.as_str(), "https://");
    let no_http = strip_start(no_https.as_str(), "http://");
    trim_end(no_http.as_str(), CharClass::Exactly('/'))
}

proof fn lemma_fixed_prefix()
    ensures
        bare_prefix("xuntian/map"@) == "xuntian/map"@,
{
    reveal_strlit("xuntian/map");
}

proof fn lemma_fixed_endpoint()
    ensures
        bare_endpoint("oss-cn-beijing.aliyuncs.com"@) == "oss-cn-beijing.aliyuncs.com"@,
{
    reveal_strlit("oss-cn-beijing.aliyuncs.com");
    reveal_strlit("https://");
    reveal_strlit("http://");
    let s = "oss-cn-beijing.aliyuncs.com"@;
    assert(trimmed(s) == s);
    assert(!begins_with(s, "https://"@)) by {
        assert(s.subrange(0, 8)[0] == 'o');
    }
    assert(!begins_with(s, "http://"@)) by {
        assert(s.subrange(0, 7)[0] == 'o');
    }
}

/// The target and the credentials of an upload.
pub fn resolve_config(config: &OssUploadConfig, env: &OssEnvironment) -> (r: Result<
    OssResolvedConfig,
    String,
>)
    ensures
        resolved_result(r) == resolved(*config, *env),
{
    proof {
        lemma_fixed_prefix();
        lemma_fixed_endpoint();
    }
    let prefix = normalize_prefix("xuntian/map");
    let endpoint = normalize_endpoint("oss-cn-beijing.aliyuncs.com");
    let access_key_id = match pick(&config.access_key_id, &env.access_key_id) {
        Some(id) => id,
        None => return Err(
            "缺少 OSS AccessKeyId（uploadConfig 或 OSS_ACCESS_KEY_ID）".to_string(),
        ),
    };
    let access_key_secret = match pick(&config.access_key_secret, &env.access_key_secret) {
        Some(secret) => secret,
        None => return Err(
            "缺少 OSS AccessKeySecret（uploadConfig 或 OSS_ACCESS_KEY_SECRET）".to_string(),
        ),
    };
    Ok(
        OssResolvedConfig {
            bucket: "xuntian-pro-public".to_string(),
            prefix: normalize_prefix(prefix.as_str()),
            endpoint,
            access_key_id,
            access_key_secret,
            security_token: pick(&config.security_token, &env.security_token),
            public_base_url: None,
        },
    )
}

/// No setting of a request but the credentials has a say in where tiles go: with the same
/// credentials, requests with any buckets, prefixes, endpoints, regions and public URLs resolve
/// alike.
pub proof fn target_ignores_request(a: OssUploadConfig, b: OssUploadConfig, env: OssEnvironment)
    requires
        opt_text(a.access_key_id) == opt_text(b.access_key_id),
        opt_text(a.access_key_secret) == opt_text(b.access_key_secret),
        opt_text(a.security_token) == opt_text(b.security_token),
    ensures
        resolved(a, env) == resolved(b, env),
{
}

// Object keys.

/// The key of an object: prefix, batch and relative key with slashes between them.
pub open spec fn object_key(prefix: Seq<char>, run_id: Seq<char>, rel_key: Seq<char>) -> Seq<char> {
    bare_prefix(prefix) + "/"@ + trimmed(run_id) + "/"@ + rel_key
}

/// The key of an object of an upload batch.
pub fn build_object_key(prefix: &str, upload_run_id: &str, rel_key: &str) -> (r: String)
    ensures
        r@ == object_key(prefix@, upload_run_id@, rel_key@),
{
    let p = normalize_prefix(prefix);
    let id = trim(upload_run_id);
    let mut key = concat4(p.as_str(), "/", id.as_str(), "/");
    key.append(rel_key);
    key
}

/// The path of a batch: prefix and batch between slashes.
pub open spec fn base_path(prefix: Seq<char>, run_id: Seq<char>) -> Seq<char> {
    "/"@ + bare_prefix(prefix) + "/"@ + trimmed(run_id) + "/"@
}

/// The path of an upload batch.
pub fn build_base_path(prefix: &str, upload_run_id: &str) -> (r: String)
    ensures
        r@ == base_path(prefix@, upload_run_id@),
{
    let p = normalize_prefix(prefix);
    let id = trim(upload_run_id);
    let mut path = concat4("/", p.as_str(), "/", id.as_str());
    path.append("/");
    path
}

/// The public URL of a batch: below the custom root where one is set and not blank, else below the
/// host of the bucket.
pub open spec fn public_base(c: ResolvedView, run_id: Seq<char>) -> Seq<char> {
    let id = trimmed(run_id);
    let own = "https://"@ + c.bucket + "."@ + c.endpoint + base_path(c.prefix, id);
    match c.public_base_url {
        Some(custom) => if trimmed(custom).len() > 0 {
            trim_end_by(trimmed(custom), CharClass::Exactly('/')) + "/"@ + bare_prefix(c.prefix)
                + "/"@ + id + "/"@
        } else {
            own
        },
        None => own,
    }
}

/// The public URL of an upload batch.
pub fn build_public_base_url(resolved: &OssResolvedConfig, upload_run_id: &str) -> (r: String)
    ensures
        r@ == public_base(resolved@, upload_run_id@),
{
    let id = trim(upload_run_id);
    if let Some(custom) = &resolved.public_base_url {
        let inner = trim(custom.as_str());
        if !inner.as_str().is_empty() {
            let root = trim_end(inner.as_str(), CharClass::Exactly('/'));
            let p = normalize_prefix(resolved.prefix.as_str());
            let mut url = concat4(root.as_str(), "/", p.as_str(), "/");
            url.append(id.as_str());
            url.append("/");
            return url;
        }
    }
    let path = build_base_path(resolved.prefix.as_str(), id.as_str());
    let mut url = concat4("https://", resolved.bucket.as_str(), ".", resolved.endpoint.as_str());
    url.append(path.as_str());
    url
}

/// The public URL that a batch will have, or the error of the settings.
pub open spec fn root_preview(
    config: OssUploadConfig,
    env: OssEnvironment,
    run_id: Seq<char>,
) -> Result<Seq<char>, Seq<char>> {
    match resolved(config, env) {
        Ok(c) => Ok(public_base(c, run_id)),
        Err(e) => Err(e),
    }
}

/// The texts of a result.
pub open spec fn text_result(r: Result<String, String>) -> Result<Seq<char>, Seq<char>> {
    match r {
        Ok(s) => Ok(s@),
        Err(e) => Err(e@),
    }
}

/// The public URL that an upload batch will have.
pub fn upload_root_prefix_preview(
    config: &OssUploadConfig,
    env: &OssEnvironment,
    upload_run_id: &str,
) -> (r: Result<String, String>)
    ensures
        text_result(r) == root_preview(*config, *env, upload_run_id@),
{
    match resolve_config(config, env) {
        Ok(c) => Ok(build_public_base_url(&c, upload_run_id)),
        Err(e) => Err(e),
    }
}

/// The key of a file inside a batch: its relative path with forward slashes and none in front.
pub open spec fn relative_key(path: Seq<char>) -> Seq<char> {
    trim_start_by(replaced(path, '\\', '/'), CharClass::Exactly('/'))
}

/// The key of a file inside a batch.
pub fn normalize_relative_key(path: &str) -> (r: String)
    ensures
        r@ == relative_key(path@),
{
    let forward = replace_char(path, '\\', '/');
    trim_start(forward.as_str(), CharClass::Exactly('/'))
}

// URLs.

/// A character that needs no encoding in a segment of a URL path.
pub open spec fn is_unreserved(c: char) -> bool {
    is_ascii_letter_or_digit(c) || c == '.' || c == '_' || c == '-' || c == '~'
}

pub open spec fn all_unreserved(s: Seq<char>) -> bool {
    forall|i: int| 0 <= i < s.len() ==> is_unreserved(#[trigger] s[i])
}

/// The characters of a key that goes into a URL as it stands.
pub open spec fn all_safe(s: Seq<char>) -> bool {
    forall|i: int| 0 <= i < s.len() ==> is_unreserved(#[trigger] s[i]) || s[i] == '/'
}

/// The upper case hexadecimal digit of a number below 16.
pub open spec fn hex_upper(n: int) -> char {
    if n < 10 {
        (48 + n) as char
    } else {
        (55 + n) as char
    }
}

/// A byte in a URL: letters and digits as they are, any other as a percent sign and two
/// hexadecimal digits.
pub open spec fn percent_byte(b: u8) -> Seq<char> {
    if is_ascii_letter_or_digit(b as char) {
        seq![b as char]
    } else {
        seq!['%', hex_upper(b as int / 16), hex_upper(b as int % 16)]
    }
}

/// Bytes in a URL, one after another.
pub open spec fn percent_bytes(bytes: Seq<u8>) -> Seq<char>
    decreases bytes.len(),
{
    if bytes.len() == 0 {
        Seq::empty()
    } else {
        percent_bytes(bytes.drop_last()) + percent_byte(bytes.last())
    }
}

/// `percent_encoding::utf8_percent_encode` with the set `NON_ALPHANUMERIC`: the UTF-8 bytes of the
/// text, ASCII letters and digits as they are and any other byte as a percent sign and two upper
/// case hexadecimal digits.
#[verifier::external_body]
pub(crate) fn percent_encode(s: &str) -> (r: String)
    ensures
        r@ == percent_bytes(encode_utf8(s@)),
{
    utf8_percent_encode(s, NON_ALPHANUMERIC).to_string()
}

/// A text in a URL, with every byte encoded that is no letter or digit.
pub open spec fn url_part(part: Seq<char>) -> Seq<char> {
    percent_bytes(encode_utf8(part))
}

/// A segment of a key in a URL: as it stands where all its characters are unreserved, else with
/// every byte encoded that is no letter, digit or dot.
pub open spec fn url_segment(seg: Seq<char>) -> Seq<char> {
    if all_unreserved(seg) {
        seg
    } else {
        join(
            split_by(seg, CharClass::Exactly('.')).map_values(|part: Seq<char>| url_part(part)),
            "."@,
        )
    }
}

/// A key in a URL: as it stands where all its characters are safe, else segment by segment.
pub open spec fn url_path(key: Seq<char>) -> Seq<char> {
    if all_safe(key) {
        key
    } else {
        join(
            split_by(key, CharClass::Exactly('/')).map_values(|seg: Seq<char>| url_segment(seg)),
            "/"@,
        )
    }
}

/// The URL of an object.
pub open spec fn put_url(bucket: Seq<char>, endpoint: Seq<char>, key: Seq<char>) -> Seq<char> {
    "https://"@ + bucket + "."@ + endpoint + "/"@ + url_path(key)
}

fn unreserved(c: char) -> (r: bool)
    ensures
        r == is_unreserved(c),
{
    ('0' <= c && c <= '9') || ('a' <= c && c <= 'z') || ('A' <= c && c <= 'Z') || c == '.' || c
        == '_' || c == '-' || c == '~'
}

fn only_unreserved(s: &str, slash: bool) -> (r: bool)
    ensures
        !slash ==> r == all_unreserved(s@),
        slash ==> r == all_safe(s@),
{
    let v = chars_of(s);
    let mut i: usize = 0;
    while i < v.len()
        invariant
            i <= v.len(),
            v@ == s@,
            forall|j: int|
                0 <= j < i ==> is_unreserved(#[trigger] s@[j]) || (slash && s@[j] == '/'),
        decreases v.len() - i,
    {
        if !unreserved(v[i]) && !(slash && v[i] == '/') {
            assert(!is_unreserved(s@[i as int]));
            return false;
        }
        i += 1;
    }
    true
}

fn encode_segment(seg: &str) -> (r: String)
    ensures
        r@ == url_segment(seg@),
{
    if only_unreserved(seg, false) {
        return seg.to_string();
    }
    let parts = split(seg, CharClass::Exactly('.'));
    let ghost all = texts(parts@);
    let ghost encode = |part: Seq<char>| url_part(part);
    let mut encoded: Vec<String> = Vec::new();
    let mut i: usize = 0;
    assert(texts(encoded@) =~= all.take(0).map_values(encode));
    while i < parts.len()
        invariant
            i <= parts.len(),
            all == texts(parts@),
            encode == (|part: Seq<char>| url_part(part)),
            texts(encoded@) == all.take(i as int).map_values(encode),
        decreases parts.len() - i,
    {
        let part = percent_encode(parts[i].as_str());
        push_text(&mut encoded, part.as_str());
        i += 1;
        assert(all.take(i as int).map_values(encode) =~= all.take(i - 1).map_values(encode).push(
            part@,
        ));
    }
    assert(all.take(i as int) =~= all);
    join_with(&encoded, ".")
}

/// The URL of an object in a bucket.
pub fn build_put_url(bucket: &str, endpoint: &str, object_key: &str) -> (r: Result<String, String>)
    ensures
        r matches Ok(url) && url@ == put_url(bucket@, endpoint@, object_key@),
{
    let path = if only_unreserved(object_key, true) {
        object_key.to_string()
    } else {
        let segments = split(object_key, CharClass::Exactly('/'));
        let ghost all = texts(segments@);
        let ghost encode = |seg: Seq<char>| url_segment(seg);
        let mut encoded: Vec<String> = Vec::new();
        let mut i: usize = 0;
        while i < segments.len()
            invariant
                i <= segments.len(),
                all == texts(segments@),
                encode == (|seg: Seq<char>| url_segment(seg)),
                texts(encoded@) == all.take(i as int).map_values(encode),
            decreases segments.len() - i,
        {
            let seg = segments[i].as_str();
            let e = encode_segment(seg);
            push_text(&mut encoded, e.as_str());
            i += 1;
            assert(all.take(i as int) == all.take(i - 1).push(seg@));
            assert(all.take(i as int).map_values(encode) =~= all.take(i - 1).map_values(
                encode,
            ).push(url_segment(seg@)));
        }
        assert(all.take(all.len() as int) == all);
        join_with(&encoded, "/")
    };
    let mut url = concat4("https://", bucket, ".", endpoint);
    url.append("/");
    url.append(path.as_str());
    Ok(url)
}

// Laws.

/// The credentials of a request go before those of the environment, each for itself; the token is
/// not needed. Where an identifier or a secret is in neither, the error names what is missing, the
/// identifier first.
pub proof fn credentials_of_the_request_go_first(config: OssUploadConfig, env: OssEnvironment)
    ensures
        resolved(config, env) is Ok <==> (config.access_key_id is Some || env.access_key_id is Some)
            && (config.access_key_secret is Some || env.access_key_secret is Some),
        resolved(config, env) matches Ok(c) ==> {
            &&& config.access_key_id matches Some(id) ==> c.access_key_id == id@
            &&& config.access_key_id is None ==> (env.access_key_id matches Some(id)
                && c.access_key_id == id@)
            &&& config.access_key_secret matches Some(secret) ==> c.access_key_secret == secret@
            &&& config.access_key_secret is None ==> (env.access_key_secret matches Some(secret)
                && c.access_key_secret == secret@)
            &&& config.security_token matches Some(token) ==> c.security_token == Some(token@)
            &&& config.security_token is None ==> c.security_token == opt_text(env.security_token)
            &&& c.bucket == "xuntian-pro-public"@
            &&& c.prefix == "xuntian/map"@
            &&& c.endpoint == "oss-cn-beijing.aliyuncs.com"@
            &&& c.public_base_url is None
        },
        config.access_key_id is None && env.access_key_id is None ==> resolved(config, env)
            == Err::<ResolvedView, Seq<char>>(
            "缺少 OSS AccessKeyId（uploadConfig 或 OSS_ACCESS_KEY_ID）"@,
        ),
        (config.access_key_id is Some || env.access_key_id is Some) && config.access_key_secret is None
            && env.access_key_secret is None ==> resolved(config, env) == Err::<
            ResolvedView,
            Seq<char>,
        >("缺少 OSS AccessKeySecret（uploadConfig 或 OSS_ACCESS_KEY_SECRET）"@),
{
}

/// Slashes around a prefix, and white space around the name of a batch, make no difference to the key
/// of an object: it is the bare prefix, the name and the relative key, with one slash between each.
pub proof fn keys_have_one_slash_between_their_parts(
    a: Seq<char>,
    prefix: Seq<char>,
    b: Seq<char>,
    run_id: Seq<char>,
    rel_key: Seq<char>,
)
    requires
        forall|i: int| 0 <= i < a.len() ==> #[trigger] a[i] == '/',
        forall|i: int| 0 <= i < b.len() ==> #[trigger] b[i] == '/',
        prefix.len() > 0 ==> prefix[0] != '/' && prefix.last() != '/',
    ensures
        bare_prefix(a + prefix + b) == prefix,
        object_key(a + prefix + b, run_id, rel_key) == prefix + seq!['/'] + trimmed(run_id) + seq![
            '/',
        ] + rel_key,
        base_path(a + prefix + b, run_id) == seq!['/'] + prefix + seq!['/'] + trimmed(run_id) + seq![
            '/',
        ],
        object_key(prefix, trimmed(run_id), rel_key) == object_key(prefix, run_id, rel_key),
{
    let k = CharClass::Exactly('/');
    assert forall|i: int| 0 <= i < a.len() implies k.has(#[trigger] a[i]) by {}
    assert forall|i: int| 0 <= i < b.len() implies k.has(#[trigger] b[i]) by {}
    trimming_takes_only_the_ends(a, prefix, b, k);
    reveal_strlit("/");
    assert("/"@ =~= seq!['/']);
    lemma_trim_by(run_id, CharClass::WhiteSpace);
    lemma_trim_fixed(trimmed(run_id), CharClass::WhiteSpace);
}

/// The name of a host is read out of what is written around it: white space, one of the two schemes
/// in front, and slashes behind.
pub proof fn hosts_are_read_out_of_their_urls(
    a: Seq<char>,
    scheme: Seq<char>,
    host: Seq<char>,
    slash: Seq<char>,
    b: Seq<char>,
)
    requires
        forall|i: int| 0 <= i < a.len() ==> CharClass::WhiteSpace.has(#[trigger] a[i]),
        forall|i: int| 0 <= i < b.len() ==> CharClass::WhiteSpace.has(#[trigger] b[i]),
        forall|i: int| 0 <= i < slash.len() ==> #[trigger] slash[i] == '/',
        scheme == "https://"@ || scheme == "http://"@ || scheme.len() == 0,
        host.len() > 0,
        !CharClass::WhiteSpace.has(host[0]),
        !CharClass::WhiteSpace.has(host.last()),
        host.last() != '/',
        forall|i: int| 0 <= i < host.len() ==> #[trigger] host[i] != ':',
    ensures
        bare_endpoint(a + (scheme + host + slash) + b) == host,
{
    reveal_strlit("https://");
    reveal_strlit("http://");
    let core = scheme + host + slash;
    let tail = host + slash;
    assert(core =~= scheme + tail);
    assert(core.last() == if slash.len() > 0 {
        slash[slash.len() - 1]
    } else {
        host.last()
    });
    if scheme.len() > 0 {
        assert(core[0] == scheme[0]);
    } else {
        assert(core[0] == host[0]);
    }
    trimming_takes_only_the_ends(a, core, b, CharClass::WhiteSpace);
    lemma_no_scheme(host, slash, "https://"@, 5);
    lemma_no_scheme(host, slash, "http://"@, 4);
    assert(strip_repeated(tail, "https://"@) == tail);
    assert(strip_repeated(tail, "http://"@) == tail);
    if scheme == "https://"@ {
        assert(core.subrange(0, 8) =~= "https://"@);
        assert(core.skip(8) =~= tail);
    } else if scheme == "http://"@ {
        assert(!begins_with(core, "https://"@)) by {
            assert(core[4] == ':');
            assert(core.len() >= 8 ==> core.subrange(0, 8)[4] == ':');
            assert("https://"@[4] == 's');
        }
        assert(core.subrange(0, 7) =~= "http://"@);
        assert(core.skip(7) =~= tail);
    } else {
        assert(core =~= tail);
    }
    let k = CharClass::Exactly('/');
    assert(trim_end_by(tail, k) == host) by {
        assert forall|i: int| 0 <= i < slash.len() implies k.has(#[trigger] slash[i]) by {}
        lemma_trim_end_class(host, slash, k);
    }
}

proof fn lemma_no_scheme(host: Seq<char>, slash: Seq<char>, scheme: Seq<char>, at: int)
    requires
        forall|i: int| 0 <= i < host.len() ==> #[trigger] host[i] != ':',
        forall|i: int| 0 <= i < slash.len() ==> #[trigger] slash[i] == '/',
        0 <= at < scheme.len(),
        scheme[at] == ':',
    ensures
        !begins_with(host + slash, scheme),
{
    let tail = host + slash;
    if begins_with(tail, scheme) {
        assert(tail.subrange(0, scheme.len() as int)[at] == tail[at]);
        if at < host.len() {
            assert(tail[at] == host[at]);
        } else {
            assert(tail[at] == slash[at - host.len()]);
        }
    }
}

proof fn lemma_trim_end_class(host: Seq<char>, slash: Seq<char>, k: CharClass)
    requires
        forall|i: int| 0 <= i < slash.len() ==> k.has(#[trigger] slash[i]),
        host.len() > 0,
        !k.has(host.last()),
    ensures
        trim_end_by(host + slash, k) == host,
    decreases slash.len(),
{
    let s = host + slash;
    if slash.len() > 0 {
        let fewer = slash.drop_last();
        assert forall|i: int| 0 <= i < fewer.len() implies k.has(#[trigger] fewer[i]) by {
            assert(fewer[i] == slash[i]);
        }
        lemma_trim_end_class(host, fewer, k);
        assert(k.has(slash[slash.len() - 1]));
        assert(s.last() == slash.last());
        assert(s.drop_last() =~= host + fewer);
    } else {
        assert(s =~= host);
    }
}

/// The public URL of a batch lies below a root of its own where one is set and not blank, and else
/// below the host of the bucket; either way prefix and batch follow.
pub proof fn public_urls_lie_below_their_root(c: ResolvedView, run_id: Seq<char>, root: Seq<char>)
    requires
        root.len() > 0,
        !CharClass::WhiteSpace.has(root[0]),
        !CharClass::WhiteSpace.has(root.last()),
        root.last() != '/',
    ensures
        c.public_base_url is None ==> public_base(c, run_id) == "https://"@ + c.bucket + "."@
            + c.endpoint + "/"@ + bare_prefix(c.prefix) + "/"@ + trimmed(run_id) + "/"@,
        c.public_base_url == Some(root) ==> public_base(c, run_id) == root + "/"@ + bare_prefix(
            c.prefix,
        ) + "/"@ + trimmed(run_id) + "/"@,
{
    lemma_trim_by(run_id, CharClass::WhiteSpace);
    lemma_trim_fixed(trimmed(run_id), CharClass::WhiteSpace);
    lemma_trim_fixed(root, CharClass::WhiteSpace);
    let id = trimmed(run_id);
    assert(trimmed(id) == id);
    let host = "https://"@ + c.bucket + "."@ + c.endpoint;
    assert(host + base_path(c.prefix, id) =~= host + "/"@ + bare_prefix(c.prefix) + "/"@ + id
        + "/"@);
}

/// The key of a file is its path below the output directory, character by character, but for
/// backslashes, which become slashes, and for slashes in front, which go.
pub proof fn relative_keys_keep_the_path(path: Seq<char>)
    ensures
        ({
            let key = relative_key(path);
            let dropped = path.len() - key.len();
            &&& 0 <= dropped
            &&& forall|i: int|
                0 <= i < dropped ==> #[trigger] path[i] == '/' || path[i] == '\\'
            &&& forall|i: int|
                0 <= i < key.len() ==> #[trigger] key[i] == (if path[dropped + i] == '\\' {
                    '/'
                } else {
                    path[dropped + i]
                })
            &&& key.len() > 0 ==> key[0] != '/'
        }),
{
    let all = replaced(path, '\\', '/');
    let k = CharClass::Exactly('/');
    lemma_trim_start(all, k);
    let key = relative_key(path);
    let dropped = path.len() - key.len();
    lemma_dropped(all, k);
    assert forall|i: int| 0 <= i < dropped implies #[trigger] path[i] == '/' || path[i] == '\\' by {
        assert(k.has(all[i]));
    }
    assert forall|i: int| 0 <= i < key.len() implies #[trigger] key[i] == (if path[dropped + i]
        == '\\' {
        '/'
    } else {
        path[dropped + i]
    }) by {
        assert(key[i] == all[dropped + i]);
    }
}

proof fn lemma_dropped(s: Seq<char>, k: CharClass)
    ensures
        trim_start_by(s, k).len() <= s.len(),
        forall|i: int| 0 <= i < s.len() - trim_start_by(s, k).len() ==> k.has(#[trigger] s[i]),
    decreases s.len(),
{
    if s.len() > 0 && k.has(s[0]) {
        let rest = s.drop_first();
        lemma_dropped(rest, k);
        assert forall|i: int| 0 <= i < s.len() - trim_start_by(s, k).len() implies k.has(
            #[trigger] s[i],
        ) by {
            if i > 0 {
                assert(rest[i - 1] == s[i]);
            }
        }
    }
}

/// The URL that is shown before an upload is the one below which its objects will lie: that of the
/// fixed bucket, with the fixed prefix and the name of the batch.
pub proof fn shown_url_is_the_one_of_the_target(
    config: OssUploadConfig,
    env: OssEnvironment,
    run_id: Seq<char>,
)
    ensures
        root_preview(config, env, run_id) is Ok <==> resolved(config, env) is Ok,
        root_preview(config, env, run_id) matches Ok(url) ==> url
            == "https://xuntian-pro-public.oss-cn-beijing.aliyuncs.com/xuntian/map/"@ + trimmed(
            run_id,
        ) + "/"@,
        root_preview(config, env, run_id) matches Err(e) ==> resolved(config, env) == Err::<
            ResolvedView,
            Seq<char>,
        >(e),
{
    if let Ok(c) = resolved(config, env) {
        lemma_fixed_prefix();
        lemma_trim_by(run_id, CharClass::WhiteSpace);
        lemma_trim_fixed(trimmed(run_id), CharClass::WhiteSpace);
        let id = trimmed(run_id);
        assert(trimmed(id) == id);
        reveal_strlit("https://");
        reveal_strlit("xuntian-pro-public");
        reveal_strlit(".");
        reveal_strlit("oss-cn-beijing.aliyuncs.com");
        reveal_strlit("/");
        reveal_strlit("xuntian/map");
        reveal_strlit("https://xuntian-pro-public.oss-cn-beijing.aliyuncs.com/xuntian/map/");
        let front = "https://"@ + c.bucket + "."@ + c.endpoint + ("/"@ + c.prefix + "/"@);
        assert(front =~= "https://xuntian-pro-public.oss-cn-beijing.aliyuncs.com/xuntian/map/"@);
        assert(public_base(c, run_id) =~= front + id + "/"@);
    }
}

} // verus!
