//! The requests of an upload: how they are signed, sent again and answered.

use crate::ids::is_http_date;
use crate::ids::rfc_1123_date;
use crate::numbers::decimal;
use crate::numbers::decimal_text;
use crate::oss_upload::build_put_url;
use crate::oss_upload::put_url;
use crate::oss_upload::text_result;
use crate::oss_upload::OssResolvedConfig;
use crate::oss_upload::ResolvedView;
use crate::paths::ends_in_name;
use crate::paths::extension;
use crate::paths::extension_outcome;
use crate::paths::has_separator;
use crate::paths::is_regular;
use crate::paths::is_separator;
use crate::paths::written_extension_is_read;
use crate::text::ascii_lower;
use crate::text::as_opt_str;
use crate::text::concat2;
use crate::text::concat3;
use crate::text::concat4;
use crate::text::contains;
use crate::text::has_text;
use crate::text::lower_char;
use crate::text::opt_str;
use crate::text::opt_text;
use crate::text::same_text;
use crate::text::take_chars;
use crate::text::text_at;
use crate::text::to_ascii_lower;
use crate::text::trim;
use crate::text::trimmed;
use base64::engine::general_purpose::STANDARD;
use base64::Engine;
use hmac::Hmac;
use hmac::Mac;
use sha1::Sha1;
use vstd::prelude::*;
use vstd::utf8::encode_utf8;
use vstd::utf8::is_ascii_chars;

verus! {

// Signing.

/// The keyed hash of a message: HMAC with SHA-1.
pub uninterp spec fn hmac_sha1(key: Seq<u8>, message: Seq<u8>) -> Seq<u8>;

/// `hmac::Hmac` over `sha1::Sha1`: the code of a message under a key, 20 bytes. A key of any
/// length is accepted.
#[verifier::external_body]
pub(crate) fn hmac_sha1_code(key: &[u8], message: &[u8]) -> (r: Result<Vec<u8>, String>)
    ensures
        r is Ok,
        r->Ok_0@ == hmac_sha1(key@, message@),
        r->Ok_0@.len() == 20,
{
    let mut mac = Hmac::<Sha1>::new_from_slice(key).map_err(|e| e.to_string())?;
    mac.update(message);
    Ok(mac.finalize().into_bytes().to_vec())
}

/// A character of the standard alphabet of Base64, or its padding.
pub open spec fn is_base64_char(c: char) -> bool {
    'A' <= c <= 'Z' || 'a' <= c <= 'z' || '0' <= c <= '9' || c == '+' || c == '/' || c == '='
}

/// The character of the standard alphabet of Base64 that stands for six bits.
pub open spec fn base64_char(bits: int) -> char {
    if bits < 26 {
        (65 + bits) as char
    } else if bits < 52 {
        (97 + bits - 26) as char
    } else if bits < 62 {
        (48 + bits - 52) as char
    } else if bits == 62 {
        '+'
    } else {
        '/'
    }
}

/// Bytes in Base64: four characters of the standard alphabet for every three bytes, six bits each,
/// the last of them padded.
pub open spec fn base64_text(bytes: Seq<u8>) -> Seq<char>
    decreases bytes.len(),
{
    if bytes.len() == 0 {
        Seq::empty()
    } else {
        let first = bytes[0] as int;
        let second = if bytes.len() > 1 {
            bytes[1] as int
        } else {
            0
        };
        let third = if bytes.len() > 2 {
            bytes[2] as int
        } else {
            0
        };
        let four = seq![
            base64_char(first / 4),
            base64_char(first % 4 * 16 + second / 16),
            if bytes.len() > 1 {
                base64_char(second % 16 * 4 + third / 64)
            } else {
                '='
            },
            if bytes.len() > 2 {
                base64_char(third % 64)
            } else {
                '='
            },
        ];
        if bytes.len() > 3 {
            four + base64_text(bytes.skip(3))
        } else {
            four
        }
    }
}

/// `base64`'s `encode` of the engine `STANDARD`: the bytes in Base64 with the standard alphabet and
/// padding. The call panics where the length of the text is no `usize`.
#[verifier::external_body]
pub(crate) fn base64_encode(bytes: &Vec<u8>) -> (r: String)
    requires
        bytes@.len() < 0x1000_0000,
    ensures
        r@ == base64_text(bytes@),
{
    STANDARD.encode(bytes)
}

/// Base64 has four characters for every three bytes that are begun, all of them of its alphabet or
/// padding.
pub proof fn base64_has_its_length_and_alphabet(bytes: Seq<u8>)
    ensures
        base64_text(bytes).len() == (bytes.len() + 2) / 3 * 4,
        forall|i: int|
            0 <= i < base64_text(bytes).len() ==> is_base64_char(#[trigger] base64_text(bytes)[i]),
    decreases bytes.len(),
{
    if bytes.len() > 3 {
        let text = base64_text(bytes);
        let rest = base64_text(bytes.skip(3));
        base64_has_its_length_and_alphabet(bytes.skip(3));
        assert forall|i: int| 0 <= i < text.len() implies is_base64_char(#[trigger] text[i]) by {
            if i >= 4 {
                assert(text[i] == rest[i - 4]);
            }
        }
    }
}

/// The signature of a payload: the keyed hash of its bytes in Base64.
pub open spec fn signature(secret: Seq<char>, payload: Seq<char>) -> Seq<char> {
    base64_text(hmac_sha1(encode_utf8(secret), encode_utf8(payload)))
}

/// The signature of a payload under a secret. It is 28 characters of Base64, and the hash takes a
/// secret of any length.
pub fn sign_hmac_sha1_base64(secret: &str, payload: &str) -> (r: Result<String, String>)
    ensures
        r matches Ok(s) && s@ == signature(secret@, payload@) && s@.len() == 28 && (forall|i: int|
            0 <= i < 28 ==> is_base64_char(#[trigger] s@[i])),
{
    match hmac_sha1_code(secret.as_bytes(), payload.as_bytes()) {
        Ok(code) => {
            proof {
                base64_has_its_length_and_alphabet(code@);
            }
            Ok(base64_encode(&code))
        },
        Err(e) => Err(concat2("构建 HMAC 密钥失败: ", e.as_str())),
    }
}

/// The token that goes with a request: the one of the settings, unless it is blank.
pub open spec fn sent_token(token: Option<Seq<char>>) -> Option<Seq<char>> {
    match token {
        Some(t) => if trimmed(t).len() > 0 {
            Some(t)
        } else {
            None
        },
        None => None,
    }
}

/// The line of the token in what is signed.
pub open spec fn canonical_headers(token: Option<Seq<char>>) -> Seq<char> {
    match sent_token(token) {
        Some(t) => "x-oss-security-token:"@ + t + "\n"@,
        None => Seq::empty(),
    }
}

/// The line of the token in what is signed.
pub fn canonicalized_oss_headers(security_token: Option<&str>) -> (r: String)
    ensures
        r@ == canonical_headers(opt_str(security_token)),
{
    match security_token {
        Some(token) => {
            if trim(token).as_str().is_empty() {
                String::new()
            } else {
                concat3("x-oss-security-token:", token, "\n")
            }
        },
        None => String::new(),
    }
}

// Requests.

/// The content type for an extension, in upper or lower case.
pub open spec fn content_type(ext: Option<Seq<char>>) -> Seq<char> {
    match ext {
        Some(e) => {
            let e = ascii_lower(e);
            if e == "png"@ {
                "image/png"@
            } else if e == "jpg"@ || e == "jpeg"@ {
                "image/jpeg"@
            } else if e == "webp"@ {
                "image/webp"@
            } else if e == "json"@ {
                "application/json"@
            } else if e == "xml"@ {
                "application/xml"@
            } else if e == "pbf"@ {
                "application/x-protobuf"@
            } else {
                "application/octet-stream"@
            }
        },
        None => "application/octet-stream"@,
    }
}

/// The content type for an extension.
pub fn content_type_of(ext: Option<&str>) -> (r: &'static str)
    ensures
        r@ == content_type(opt_str(ext)),
{
    match ext {
        Some(raw) => {
            let lower = to_ascii_lower(raw);
            let e = lower.as_str();
            if same_text(e, "png") {
                "image/png"
            } else if same_text(e, "jpg") || same_text(e, "jpeg") {
                "image/jpeg"
            } else if same_text(e, "webp") {
                "image/webp"
            } else if same_text(e, "json") {
                "application/json"
            } else if same_text(e, "xml") {
                "application/xml"
            } else if same_text(e, "pbf") {
                "application/x-protobuf"
            } else {
                "application/octet-stream"
            }
        },
        None => "application/octet-stream",
    }
}

/// The content type is that of the extension of the path.
pub open spec fn type_outcome(path: Seq<char>, t: Seq<char>) -> bool {
    exists|ext: Option<Seq<char>>| #[trigger]
        extension_outcome(path, ext) && t == content_type(ext)
}

/// The content type of the file at a path.
pub fn guess_content_type(path: &str) -> (r: &'static str)
    ensures
        type_outcome(path@, r@),
{
    let ext = extension(path);
    assert(extension_outcome(path@, opt_text(ext)));
    content_type_of(as_opt_str(&ext))
}

/// A request that puts one object.
#[derive(Debug, Clone)]
pub struct PutRequest {
    pub url: String,
    pub date: String,
    pub content_type: String,
    pub authorization: String,
    pub security_token: Option<String>,
}

/// The content of a [`PutRequest`].
pub ghost struct PutView {
    pub url: Seq<char>,
    pub date: Seq<char>,
    pub content_type: Seq<char>,
    pub authorization: Seq<char>,
    pub security_token: Option<Seq<char>>,
}

impl View for PutRequest {
    type V = PutView;

    open spec fn view(&self) -> PutView {
        PutView {
            url: self.url@,
            date: self.date@,
            content_type: self.content_type@,
            authorization: self.authorization@,
            security_token: opt_text(self.security_token),
        }
    }
}

/// What is signed of a request: the method, the content type, the date, the token and the object.
pub open spec fn string_to_sign(
    c: ResolvedView,
    key: Seq<char>,
    content_type: Seq<char>,
    date: Seq<char>,
) -> Seq<char> {
    "PUT\n\n"@ + content_type + "\n"@ + date + "\n"@ + canonical_headers(c.security_token) + "/"@
        + c.bucket + "/"@ + key
}

/// The request that puts an object, signed.
pub open spec fn put_request(
    c: ResolvedView,
    key: Seq<char>,
    content_type: Seq<char>,
    date: Seq<char>,
) -> PutView {
    PutView {
        url: put_url(c.bucket, c.endpoint, key),
        date,
        content_type,
        authorization: "OSS "@ + c.access_key_id + ":"@ + signature(
            c.access_key_secret,
            string_to_sign(c, key, content_type, date),
        ),
        security_token: sent_token(c.security_token),
    }
}

/// The text that a request is signed over.
pub fn build_string_to_sign(
    config: &OssResolvedConfig,
    object_key: &str,
    content_type: &str,
    date: &str,
) -> (r: String)
    ensures
        r@ == string_to_sign(config@, object_key@, content_type@, date@),
{
    let headers = canonicalized_oss_headers(as_opt_str(&config.security_token));
    let mut s = concat4("PUT\n\n", content_type, "\n", date);
    s.append("\n");
    s.append(headers.as_str());
    s.append("/");
    s.append(config.bucket.as_str());
    s.append("/");
    s.append(object_key);
    s
}

/// The signed request that puts an object, with its content type and date given.
pub fn build_put_request(
    config: &OssResolvedConfig,
    object_key: &str,
    content_type: &str,
    date: &str,
) -> (r: Result<PutRequest, String>)
    ensures
        r matches Ok(req) && req@ == put_request(config@, object_key@, content_type@, date@),
{
    let payload = build_string_to_sign(config, object_key, content_type, date);
    let sig = match sign_hmac_sha1_base64(config.access_key_secret.as_str(), payload.as_str()) {
        Ok(s) => s,
        Err(e) => return Err(e),
    };
    let authorization = concat4("OSS ", config.access_key_id.as_str(), ":", sig.as_str());
    let url = match build_put_url(
        config.bucket.as_str(),
        config.endpoint.as_str(),
        object_key,
    ) {
        Ok(u) => u,
        Err(e) => return Err(e),
    };
    let security_token = match &config.security_token {
        Some(token) => {
            if trim(token.as_str()).as_str().is_empty() {
                None
            } else {
                Some(token.clone())
            }
        },
        None => None,
    };
    Ok(
        PutRequest {
            url,
            date: date.to_string(),
            content_type: content_type.to_string(),
            authorization,
            security_token,
        },
    )
}

/// The text, cut to `max_len` characters and marked with dots where it is longer.
pub open spec fn shortened(text: Seq<char>, max_len: nat) -> Seq<char> {
    if text.len() <= max_len {
        text
    } else {
        text.take(max_len as int) + "..."@
    }
}

/// The text, cut to `max_len` characters and marked with dots where it is longer.
pub fn shorten(text: &str, max_len: usize) -> (r: String)
    ensures
        r@ == shortened(text@, max_len as nat),
{
    let head = take_chars(text, max_len);
    if same_text(head.as_str(), text) {
        assert(text@.len() <= max_len) by {
            if text@.len() > max_len {
                assert(head@.len() == max_len);
            }
        }
        return text.to_string();
    }
    concat2(head.as_str(), "...")
}

/// What happens while one object is put: its file was read or not; the request was sent and
/// answered or not.
#[derive(Debug)]
pub enum PutEvent {
    BodyRead(Result<(), String>),
    SendFailed(String),
    Answered { status: u16, body: String },
}

/// What is done next: send a request, or end with the URL of the object or an error.
#[derive(Debug)]
pub enum PutAction {
    Send(PutRequest),
    Finish(Result<String, String>),
}

/// A status that says that the object was stored.
pub open spec fn is_success(status: u16) -> bool {
    200 <= status < 300
}

/// What an answer means: the URL where the object was stored, else an error with the status and the
/// start of the answer.
pub open spec fn put_answer(url: Seq<char>, status: u16, body: Seq<char>) -> Result<
    Seq<char>,
    Seq<char>,
> {
    if is_success(status) {
        Ok(url)
    } else if status == 403 {
        Err("OSS 拒绝访问(403): "@ + shortened(body, 240))
    } else {
        Err("OSS 上传失败("@ + decimal(status as nat) + "): "@ + shortened(body, 240))
    }
}

/// What an answer to a request means.
pub fn read_put_answer(url: &str, status: u16, body: &str) -> (r: Result<String, String>)
    ensures
        text_result(r) == put_answer(url@, status, body@),
{
    if 200 <= status && status < 300 {
        return Ok(url.to_string());
    }
    let shown = shorten(body, 240);
    if status == 403 {
        return Err(concat2("OSS 拒绝访问(403): ", shown.as_str()));
    }
    let code = decimal_text(status as u128);
    Err(concat4("OSS 上传失败(", code.as_str(), "): ", shown.as_str()))
}

/// The request for an object: signed for the present date, with the content type of the file.
pub open spec fn put_request_outcome(
    c: ResolvedView,
    key: Seq<char>,
    local_path: Seq<char>,
    req: PutView,
) -> bool {
    &&& is_http_date(req.date)
    &&& type_outcome(local_path, req.content_type)
    &&& req == put_request(c, key, req.content_type, req.date)
}

/// The steps of putting one object: a file that was read is sent in a signed request, and the
/// answer ends it; each failure ends it with its error.
pub fn upload_single_file(
    config: &OssResolvedConfig,
    object_key: &str,
    local_path: &str,
    event: &PutEvent,
) -> (r: PutAction)
    ensures
        match *event {
            PutEvent::BodyRead(Ok(_)) => r matches PutAction::Send(req) && put_request_outcome(
                config@,
                object_key@,
                local_path@,
                req@,
            ),
            PutEvent::BodyRead(Err(e)) => r matches PutAction::Finish(Err(t)) && t@
                == "读取本地文件失败 "@ + local_path@ + ": "@ + e@,
            PutEvent::SendFailed(e) => r matches PutAction::Finish(Err(t)) && t@
                == "OSS 请求失败 "@ + local_path@ + ": "@ + e@,
            PutEvent::Answered { status, body } => r matches PutAction::Finish(res)
                && text_result(res) == put_answer(
                put_url(config@.bucket, config@.endpoint, object_key@),
                status,
                body@,
            ),
        },
{
    match event {
        PutEvent::BodyRead(Ok(_)) => {
            let t = guess_content_type(local_path);
            let date = rfc_1123_date();
            match build_put_request(config, object_key, t, date.as_str()) {
                Ok(req) => PutAction::Send(req),
                Err(e) => PutAction::Finish(Err(e)),
            }
        },
        PutEvent::BodyRead(Err(e)) => PutAction::Finish(
            Err(concat4("读取本地文件失败 ", local_path, ": ", e.as_str())),
        ),
        PutEvent::SendFailed(e) => PutAction::Finish(
            Err(concat4("OSS 请求失败 ", local_path, ": ", e.as_str())),
        ),
        PutEvent::Answered { status, body } => {
            match build_put_url(config.bucket.as_str(), config.endpoint.as_str(), object_key) {
                Ok(url) => PutAction::Finish(read_put_answer(url.as_str(), *status, body.as_str())),
                Err(e) => PutAction::Finish(Err(e)),
            }
        },
    }
}

// Sending again.

/// A text in lower case, after the rules of Unicode.
pub uninterp spec fn unicode_lower(s: Seq<char>) -> Seq<char>;

/// `str::to_lowercase`: the text in lower case after the rules of Unicode. Where ASCII stands in the
/// text, it stands in the result with its letters `A` to `Z` mapped to `a` to `z`, and a text all in
/// ASCII becomes just that. What other characters are mapped to is not stated, only that the same
/// text gives the same result.
#[verifier::external_body]
pub(crate) fn to_unicode_lower(s: &str) -> (r: String)
    ensures
        r@ == unicode_lower(s@),
        is_ascii_chars(s@) ==> r@ == ascii_lower(s@),
        forall|part: Seq<char>|
            is_ascii_chars(part) && #[trigger] has_text(s@, part) ==> has_text(
                r@,
                ascii_lower(part),
            ),
{
    s.to_lowercase()
}

/// An error text in lower case that tells of a time-out, a lost connection or a server that is
/// busy.
pub open spec fn is_transient(lower: Seq<char>) -> bool {
    ||| has_text(lower, "timeout"@)
    ||| has_text(lower, "timed out"@)
    ||| has_text(lower, "connection"@)
    ||| has_text(lower, "502"@)
    ||| has_text(lower, "503"@)
    ||| has_text(lower, "504"@)
    ||| has_text(lower, "429"@)
}

spec fn transient_words() -> Seq<Seq<char>> {
    seq!["timeout"@, "timed out"@, "connection"@, "502"@, "503"@, "504"@, "429"@]
}

proof fn lemma_transient(lower: Seq<char>)
    ensures
        is_transient(lower) <==> exists|k: int|
            0 <= k < transient_words().len() && has_text(lower, #[trigger] transient_words()[k]),
{
    let words = transient_words();
    assert(words[0] == "timeout"@ && words[1] == "timed out"@ && words[2] == "connection"@);
    assert(words[3] == "502"@ && words[4] == "503"@ && words[5] == "504"@ && words[6] == "429"@);
}

proof fn lemma_words_are_ascii()
    ensures
        forall|k: int|
            0 <= k < transient_words().len() ==> is_ascii_chars(#[trigger] transient_words()[k]),
{
    reveal_strlit("timeout");
    reveal_strlit("timed out");
    reveal_strlit("connection");
    reveal_strlit("502");
    reveal_strlit("503");
    reveal_strlit("504");
    reveal_strlit("429");
}

/// A word in ASCII that stands in a text in lower case comes from a part of the text in ASCII.
proof fn lemma_lower_part(s: Seq<char>, word: Seq<char>)
    requires
        is_ascii_chars(word),
        has_text(ascii_lower(s), word),
    ensures
        exists|part: Seq<char>|
            is_ascii_chars(part) && #[trigger] has_text(s, part) && ascii_lower(part) == word,
{
    let i = choose|i: int| #[trigger] text_at(ascii_lower(s), word, i);
    let part = s.subrange(i, i + word.len());
    assert(ascii_lower(part) =~= ascii_lower(s).subrange(i, i + word.len()));
    assert forall|k: int| 0 <= k < part.len() implies '\0' <= #[trigger] part[k] <= '\u{7f}' by {
        assert(ascii_lower(part)[k] == lower_char(part[k]));
        assert('\0' <= word[k] <= '\u{7f}');
    }
    assert(is_ascii_chars(part));
    assert(ascii_lower(part) =~= word);
    assert(text_at(s, part, i));
    assert(has_text(s, part));
}

/// Whether an error text in lower case is worth another attempt.
pub fn is_transient_text(lower: &str) -> (r: bool)
    ensures
        r == is_transient(lower@),
{
    contains(lower, "timeout") || contains(lower, "timed out") || contains(lower, "connection")
        || contains(lower, "502") || contains(lower, "503") || contains(lower, "504") || contains(
        lower,
        "429",
    )
}

/// Whether an error is worth another attempt.
pub fn is_retryable_error(msg: &str) -> (r: bool)
    ensures
        r == is_transient(unicode_lower(msg@)),
        is_ascii_chars(msg@) ==> r == is_transient(ascii_lower(msg@)),
        is_transient(ascii_lower(msg@)) ==> r,
{
    let lower = to_unicode_lower(msg);
    proof {
        lemma_words_are_ascii();
        let words = transient_words();
        assert forall|k: int| 0 <= k < words.len() && has_text(ascii_lower(msg@), #[trigger] words[k])
            implies has_text(lower@, words[k]) by {
            lemma_lower_part(msg@, words[k]);
        }
        lemma_transient(ascii_lower(msg@));
        lemma_transient(lower@);
    }
    is_transient_text(lower.as_str())
}

/// What follows an attempt: another one after a pause, or the end.
#[derive(Debug)]
pub enum RetryAction {
    Again { pause_ms: u64 },
    Return(Result<String, String>),
}

/// The content of a [`RetryAction`].
pub ghost enum RetryView {
    Again(int),
    Return(Result<Seq<char>, Seq<char>>),
}

impl View for RetryAction {
    type V = RetryView;

    open spec fn view(&self) -> RetryView {
        match *self {
            RetryAction::Again { pause_ms } => RetryView::Again(pause_ms as int),
            RetryAction::Return(r) => RetryView::Return(text_result(r)),
        }
    }
}

/// What follows attempt number `attempt`, counted from 0: a success and a lasting error are
/// returned; after a passing error there are two more attempts, with pauses of 200 and 400
/// milliseconds.
pub open spec fn retry_step(
    attempt: int,
    result: Result<Seq<char>, Seq<char>>,
    transient: bool,
) -> RetryView {
    if result is Err && transient && attempt < 2 {
        RetryView::Again(200 * (attempt + 1))
    } else {
        RetryView::Return(result)
    }
}

/// What follows an attempt, with the decision given whether its error passes.
pub fn after_attempt(attempt: u32, result: Result<String, String>, transient: bool) -> (r:
    RetryAction)
    ensures
        r@ == retry_step(attempt as int, text_result(result), transient),
{
    if result.is_err() && transient && attempt < 2 {
        RetryAction::Again { pause_ms: 200 * (attempt as u64 + 1) }
    } else {
        RetryAction::Return(result)
    }
}

/// The error passes, so that another attempt is worth it.
pub open spec fn error_is_transient(result: Result<Seq<char>, Seq<char>>) -> bool {
    match result {
        Ok(_) => false,
        Err(e) => is_transient(unicode_lower(e)),
    }
}

/// What follows attempt number `attempt`, counted from 0, of putting one object.
pub fn upload_single_file_with_retry(attempt: u32, result: Result<String, String>) -> (r:
    RetryAction)
    ensures
        r@ == retry_step(
            attempt as int,
            text_result(result),
            error_is_transient(text_result(result)),
        ),
        (result matches Err(e) && is_transient(ascii_lower(e@))) && attempt < 2 ==> r@
            == RetryView::Again(200 * (attempt + 1)),
{
    let transient = match &result {
        Ok(_) => false,
        Err(e) => is_retryable_error(e.as_str()),
    };
    after_attempt(attempt, result, transient)
}

/// The answer of a server that is busy, or of a gateway that could not reach it, is an error that
/// passes, so that another attempt follows.
pub proof fn busy_servers_are_asked_again(url: Seq<char>, status: u16, body: Seq<char>)
    requires
        status == 429 || status == 502 || status == 503 || status == 504,
    ensures
        put_answer(url, status, body) matches Err(e) && is_transient(ascii_lower(e)),
{
    reveal_with_fuel(decimal, 3);
    reveal_strlit("429");
    reveal_strlit("502");
    reveal_strlit("503");
    reveal_strlit("504");
    let front = "OSS 上传失败("@;
    let code = decimal(status as nat);
    let e = front + code + "): "@ + shortened(body, 240);
    let low = ascii_lower(e);
    assert(status == 429 ==> code =~= "429"@);
    assert(status == 502 ==> code =~= "502"@);
    assert(status == 503 ==> code =~= "503"@);
    assert(status == 504 ==> code =~= "504"@);
    let n = front.len() as int;
    assert(code.len() == 3);
    assert(low.subrange(n, n + 3) =~= code);
    assert(text_at(low, code, n));
    assert(has_text(low, code));
}

/// There are three attempts at most, a success is never repeated, and what is returned is what
/// the last attempt gave.
pub proof fn at_most_three_attempts(
    attempt: int,
    result: Result<Seq<char>, Seq<char>>,
    transient: bool,
)
    requires
        0 <= attempt,
    ensures
        attempt >= 2 ==> retry_step(attempt, result, transient) == RetryView::Return(result),
        result is Ok ==> retry_step(attempt, result, transient) == RetryView::Return(result),
        retry_step(attempt, result, transient) is Return ==> retry_step(
            attempt,
            result,
            transient,
        )->Return_0 == result,
        retry_step(attempt, result, transient) matches RetryView::Again(pause) ==> transient
            && result is Err && 200 <= pause <= 400,
{
}

/// A token is sent with a request if and only if it stands in what is signed.
pub proof fn token_is_sent_as_it_is_signed(
    c: ResolvedView,
    key: Seq<char>,
    content_type: Seq<char>,
    date: Seq<char>,
)
    ensures
        string_to_sign(c, key, content_type, date) == "PUT\n\n"@ + content_type + "\n"@ + date
            + "\n"@ + match put_request(c, key, content_type, date).security_token {
            Some(token) => "x-oss-security-token:"@ + token + "\n"@,
            None => Seq::empty(),
        } + "/"@ + c.bucket + "/"@ + key,
{
}

/// Pictures, documents and vector tiles have the types that browsers know, whatever the case of their
/// extensions; any other file, and one without an extension, is sent as plain bytes.
pub proof fn content_types_are_those_of_the_extensions(e: Seq<char>)
    ensures
        ascii_lower(e) == "png"@ ==> content_type(Some(e)) == "image/png"@,
        ascii_lower(e) == "jpg"@ ==> content_type(Some(e)) == "image/jpeg"@,
        ascii_lower(e) == "jpeg"@ ==> content_type(Some(e)) == "image/jpeg"@,
        ascii_lower(e) == "webp"@ ==> content_type(Some(e)) == "image/webp"@,
        ascii_lower(e) == "json"@ ==> content_type(Some(e)) == "application/json"@,
        ascii_lower(e) == "xml"@ ==> content_type(Some(e)) == "application/xml"@,
        ascii_lower(e) == "pbf"@ ==> content_type(Some(e)) == "application/x-protobuf"@,
        ascii_lower(e) != "png"@ && ascii_lower(e) != "jpg"@ && ascii_lower(e) != "jpeg"@
            && ascii_lower(e) != "webp"@ && ascii_lower(e) != "json"@ && ascii_lower(e) != "xml"@
            && ascii_lower(e) != "pbf"@ ==> content_type(Some(e)) == "application/octet-stream"@,
        content_type(None) == "application/octet-stream"@,
{
    reveal_strlit("png");
    reveal_strlit("jpg");
    reveal_strlit("jpeg");
    reveal_strlit("webp");
    reveal_strlit("json");
    reveal_strlit("xml");
    reveal_strlit("pbf");
    assert("png"@[0] == 'p' && "pbf"@[0] == 'p' && "png"@[1] != "pbf"@[1]);
    assert("jpg"@[0] == 'j' && "jpeg"@[0] == 'j' && "json"@[0] == 'j' && "webp"@[0] == 'w'
        && "xml"@[0] == 'x');
    assert("jpg"@[1] == 'p' && "jpeg"@[1] == 'p' && "json"@[1] == 's');
}

/// A request is put to the URL of its object, carries the date and the type that it was signed with,
/// and is signed under the secret, over the method, the type, the date, the token where one is sent,
/// the bucket and the object, and told under the identifier that goes with the secret.
pub proof fn requests_are_signed_for_what_they_carry(
    c: ResolvedView,
    key: Seq<char>,
    content_type: Seq<char>,
    date: Seq<char>,
)
    ensures
        ({
            let req = put_request(c, key, content_type, date);
            let token = match req.security_token {
                Some(t) => "x-oss-security-token:"@ + t + "\n"@,
                None => Seq::empty(),
            };
            let signed = "PUT\n\n"@ + req.content_type + "\n"@ + req.date + "\n"@ + token + "/"@
                + c.bucket + "/"@ + key;
            &&& req.url == put_url(c.bucket, c.endpoint, key)
            &&& req.date == date
            &&& req.content_type == content_type
            &&& req.authorization == "OSS "@ + c.access_key_id + ":"@ + base64_text(
                hmac_sha1(encode_utf8(c.access_key_secret), encode_utf8(signed)),
            )
        }),
{
}

/// A token is sent, as it is, exactly where there is one that is not blank.
pub proof fn tokens_are_sent_unless_blank(token: Seq<char>)
    ensures
        sent_token(None) is None,
        trimmed(token).len() == 0 ==> sent_token(Some(token)) is None && canonical_headers(
            Some(token),
        ).len() == 0,
        trimmed(token).len() > 0 ==> sent_token(Some(token)) == Some(token) && canonical_headers(
            Some(token),
        ) == "x-oss-security-token:"@ + token + "\n"@,
        canonical_headers(None).len() == 0,
{
}

/// An object was stored exactly where the status lies from 200 to 299. Any other status is told with
/// what the server has answered, of which 240 characters are shown at most, with dots behind them
/// where it is more; a refused access is told apart.
pub proof fn answers_are_told_by_their_status(url: Seq<char>, status: u16, body: Seq<char>)
    ensures
        put_answer(url, status, body) is Ok <==> 200 <= status <= 299,
        200 <= status <= 299 ==> put_answer(url, status, body) == Ok::<Seq<char>, Seq<char>>(url),
        !(200 <= status <= 299) ==> {
            let shown = if body.len() <= 240 {
                body
            } else {
                body.take(240) + seq!['.', '.', '.']
            };
            put_answer(url, status, body) == Err::<Seq<char>, Seq<char>>(
                if status == 403 {
                    "OSS 拒绝访问(403): "@ + shown
                } else {
                    "OSS 上传失败("@ + decimal(status as nat) + "): "@ + shown
                },
            )
        },
{
    reveal_strlit("...");
    assert("..."@ =~= seq!['.', '.', '.']);
}

/// An error passes exactly where it tells of a time-out, of a connection, or of a server that is
/// busy or cannot be reached.
pub proof fn passing_errors_are_known_by_their_words(before: Seq<char>, after: Seq<char>)
    ensures
        is_transient(before + "timeout"@ + after),
        is_transient(before + "timed out"@ + after),
        is_transient(before + "connection"@ + after),
        is_transient(before + "502"@ + after),
        is_transient(before + "503"@ + after),
        is_transient(before + "504"@ + after),
        is_transient(before + "429"@ + after),
        is_transient(before) ==> has_text(before, "timeout"@) || has_text(before, "timed out"@)
            || has_text(before, "connection"@) || has_text(before, "502"@) || has_text(
            before,
            "503"@,
        ) || has_text(before, "504"@) || has_text(before, "429"@),
{
    lemma_word_between(before, "timeout"@, after);
    lemma_word_between(before, "timed out"@, after);
    lemma_word_between(before, "connection"@, after);
    lemma_word_between(before, "502"@, after);
    lemma_word_between(before, "503"@, after);
    lemma_word_between(before, "504"@, after);
    lemma_word_between(before, "429"@, after);
}

proof fn lemma_word_between(before: Seq<char>, word: Seq<char>, after: Seq<char>)
    ensures
        has_text(before + word + after, word),
{
    let s = before + word + after;
    let n = before.len() as int;
    assert(s.subrange(n, n + word.len()) =~= word);
    assert(text_at(s, word, n));
}

/// After a passing error there is a second attempt after 200 milliseconds and a third after 400; a
/// lasting error and a success are returned at once, and so is whatever the third attempt gives.
pub proof fn pauses_grow_with_the_attempts(error: Seq<char>, url: Seq<char>, attempt: int)
    ensures
        retry_step(0, Err(error), true) == RetryView::Again(200),
        retry_step(1, Err(error), true) == RetryView::Again(400),
        attempt >= 2 ==> retry_step(attempt, Err(error), true) == RetryView::Return(Err(error)),
        retry_step(attempt, Err(error), false) == RetryView::Return(Err(error)),
        retry_step(attempt, Ok(url), true) == RetryView::Return(Ok(url)),
        retry_step(attempt, Ok(url), false) == RetryView::Return(Ok(url)),
{
}

/// Putting an object: a file that was read is sent in a request that is signed for it; a file that
/// could not be read and a request that could not be sent end it, each with its error and the path of
/// the file; and an answer ends it with the URL of the object or the error of the server.
pub proof fn course_of_putting_an_object(
    config: OssResolvedConfig,
    object_key: &str,
    local_path: &str,
    event: PutEvent,
    r: PutAction,
)
    requires
        call_ensures(upload_single_file, (&config, object_key, local_path, &event), r),
    ensures
        (event matches PutEvent::BodyRead(Ok(_))) <==> r is Send,
        r matches PutAction::Send(req) ==> req@.url == put_url(
            config.bucket@,
            config.endpoint@,
            object_key@,
        ) && req@ == put_request(config@, object_key@, req@.content_type, req@.date)
            && type_outcome(local_path@, req@.content_type) && is_http_date(req@.date),
        event matches PutEvent::BodyRead(Err(e)) ==> (r matches PutAction::Finish(Err(t)) && t@
            == "读取本地文件失败 "@ + local_path@ + ": "@ + e@),
        event matches PutEvent::SendFailed(e) ==> (r matches PutAction::Finish(Err(t)) && t@
            == "OSS 请求失败 "@ + local_path@ + ": "@ + e@),
        event matches PutEvent::Answered { status, body } ==> (r matches PutAction::Finish(res) && (
        res is Ok <==> 200 <= status <= 299) && (res matches Ok(url) ==> url@ == put_url(
            config.bucket@,
            config.endpoint@,
            object_key@,
        ))),
{
}

/// An error is worth another attempt wherever it holds one of the words, in capital or small letters
/// of ASCII.
pub proof fn words_of_passing_errors_are_found(
    msg: &str,
    r: bool,
    before: Seq<char>,
    word: Seq<char>,
    after: Seq<char>,
)
    requires
        call_ensures(is_retryable_error, (msg,), r),
        msg@ == before + word + after,
        ascii_lower(word) == "timeout"@ || ascii_lower(word) == "timed out"@ || ascii_lower(word)
            == "connection"@ || ascii_lower(word) == "502"@ || ascii_lower(word) == "503"@
            || ascii_lower(word) == "504"@ || ascii_lower(word) == "429"@,
    ensures
        r,
{
    passing_errors_are_known_by_their_words(ascii_lower(before), ascii_lower(after));
    assert(ascii_lower(msg@) =~= ascii_lower(before) + ascii_lower(word) + ascii_lower(after));
}

/// A file is sent with the type of the extension that its path is written with.
pub proof fn files_are_sent_with_the_type_of_their_extension(
    front: Seq<char>,
    word: Seq<char>,
    t: Seq<char>,
)
    requires
        type_outcome(front + seq!['.'] + word, t),
        is_regular(front + seq!['.'] + word),
        ends_in_name(front + seq!['.'] + word),
        front.len() > 0,
        !is_separator(front.last()),
        !word.contains('.'),
        !has_separator(word),
    ensures
        ascii_lower(word) == "webp"@ ==> t == "image/webp"@,
        ascii_lower(word) == "jpg"@ ==> t == "image/jpeg"@,
        ascii_lower(word) == "jpeg"@ ==> t == "image/jpeg"@,
        ascii_lower(word) == "png"@ ==> t == "image/png"@,
        ascii_lower(word) == "json"@ ==> t == "application/json"@,
        ascii_lower(word) == "xml"@ ==> t == "application/xml"@,
        ascii_lower(word) == "pbf"@ ==> t == "application/x-protobuf"@,
{
    let ext = choose|ext: Option<Seq<char>>| #[trigger]
        extension_outcome(front + seq!['.'] + word, ext) && t == content_type(ext);
    written_extension_is_read(front, word, ext);
    content_types_are_those_of_the_extensions(word);
}

} // verus!
