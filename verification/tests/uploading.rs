use tif2tiles::oss_batch::client_failure;
use tif2tiles::oss_batch::collect_upload_files;
use tif2tiles::oss_batch::is_among;
use tif2tiles::oss_batch::group_files_by_z;
use tif2tiles::oss_batch::pool_failure;
use tif2tiles::oss_batch::should_upload_extension;
use tif2tiles::oss_batch::should_upload_file;
use tif2tiles::oss_batch::upload_item;
use tif2tiles::oss_batch::upload_tiles_to_oss;
use tif2tiles::oss_batch::upload_worker_count;
use tif2tiles::oss_batch::zoom_level;
use tif2tiles::oss_batch::UploadTally;
use tif2tiles::oss_request::after_attempt;
use tif2tiles::oss_request::build_put_request;
use tif2tiles::oss_request::build_string_to_sign;
use tif2tiles::oss_request::canonicalized_oss_headers;
use tif2tiles::oss_request::content_type_of;
use tif2tiles::oss_request::guess_content_type;
use tif2tiles::oss_request::is_retryable_error;
use tif2tiles::oss_request::is_transient_text;
use tif2tiles::oss_request::read_put_answer;
use tif2tiles::oss_request::shorten;
use tif2tiles::oss_request::sign_hmac_sha1_base64;
use tif2tiles::oss_request::upload_single_file;
use tif2tiles::oss_request::upload_single_file_with_retry;
use tif2tiles::oss_request::PutAction;
use tif2tiles::oss_request::PutEvent;
use tif2tiles::oss_request::RetryAction;
use tif2tiles::oss_upload::build_base_path;
use tif2tiles::oss_upload::build_object_key;
use tif2tiles::oss_upload::build_public_base_url;
use tif2tiles::oss_upload::build_put_url;
use tif2tiles::oss_upload::normalize_endpoint;
use tif2tiles::oss_upload::normalize_prefix;
use tif2tiles::oss_upload::normalize_relative_key;
use tif2tiles::oss_upload::resolve_config;
use tif2tiles::oss_upload::upload_root_prefix_preview;
use tif2tiles::oss_upload::OssEnvironment;
use tif2tiles::oss_upload::OssResolvedConfig;
use tif2tiles::oss_upload::OssUploadConfig;
use tif2tiles::upload_context::build_upload_run_segment;
use tif2tiles::upload_context::context_folder;
use tif2tiles::upload_context::sanitize_folder_segment;
use tif2tiles::upload_context::UploadContext;

fn s(x: &str) -> String {
    x.to_string()
}

fn config() -> OssUploadConfig {
    OssUploadConfig {
        enabled: true,
        bucket: Some(s("other-bucket")),
        prefix: Some(s("other/prefix")),
        endpoint: Some(s("evil.example")),
        region: Some(s("moon")),
        fail_task_on_error: false,
        access_key_id: Some(s("id")),
        access_key_secret: Some(s("secret")),
        security_token: None,
        public_base_url: Some(s("https://evil.example")),
    }
}

fn no_env() -> OssEnvironment {
    OssEnvironment { access_key_id: None, access_key_secret: None, security_token: None }
}

fn target() -> OssResolvedConfig {
    resolve_config(&config(), &no_env()).unwrap()
}

#[test]
fn the_target_is_fixed() {
    let r = target();
    assert_eq!(r.bucket, "xuntian-pro-public");
    assert_eq!(r.prefix, "xuntian/map");
    assert_eq!(r.endpoint, "oss-cn-beijing.aliyuncs.com");
    assert_eq!(r.public_base_url, None);
    assert_eq!(r.access_key_id, "id");
    assert_eq!(r.access_key_secret, "secret");
    assert_eq!(r.security_token, None);
}

#[test]
fn credentials_come_from_the_request_or_the_environment() {
    let env = OssEnvironment {
        access_key_id: Some(s("env-id")),
        access_key_secret: Some(s("env-secret")),
        security_token: Some(s("env-token")),
    };
    let r = resolve_config(&config(), &env).unwrap();
    assert_eq!(r.access_key_id, "id");
    assert_eq!(r.security_token, Some(s("env-token")));
    let mut c = config();
    c.access_key_id = None;
    c.access_key_secret = None;
    c.security_token = Some(s("own"));
    let r = resolve_config(&c, &env).unwrap();
    assert_eq!(r.access_key_id, "env-id");
    assert_eq!(r.access_key_secret, "env-secret");
    assert_eq!(r.security_token, Some(s("own")));
}

#[test]
fn missing_credentials_are_named() {
    let mut c = config();
    c.access_key_id = None;
    assert_eq!(
        resolve_config(&c, &no_env()).unwrap_err(),
        "缺少 OSS AccessKeyId（uploadConfig 或 OSS_ACCESS_KEY_ID）"
    );
    let mut c = config();
    c.access_key_secret = None;
    assert_eq!(
        resolve_config(&c, &no_env()).unwrap_err(),
        "缺少 OSS AccessKeySecret（uploadConfig 或 OSS_ACCESS_KEY_SECRET）"
    );
    assert!(upload_root_prefix_preview(&c, &no_env(), "1").is_err());
}

#[test]
fn keys_and_prefixes_are_normalised() {
    assert_eq!(normalize_prefix("//a/b/"), "a/b");
    assert_eq!(normalize_endpoint(" https://http://host.com// "), "host.com");
    assert_eq!(normalize_relative_key("\\12\\3\\4.webp"), "12/3/4.webp");
    assert_eq!(normalize_relative_key("12/3/4.webp"), "12/3/4.webp");
    assert_eq!(build_object_key("/p/", " 17 ", "a/b"), "p/17/a/b");
    assert_eq!(build_base_path("/p/", " 17 "), "/p/17/");
}

#[test]
fn object_keys_follow_prefix_batch_and_path() {
    let r = target();
    assert_eq!(
        build_object_key(&r.prefix, "1730123456789", "12/3456/7890.png"),
        "xuntian/map/1730123456789/12/3456/7890.png"
    );
}

#[test]
fn public_urls() {
    assert_eq!(
        upload_root_prefix_preview(&config(), &no_env(), " 17 "),
        Ok(s("https://xuntian-pro-public.oss-cn-beijing.aliyuncs.com/xuntian/map/17/"))
    );
    let mut r = target();
    r.public_base_url = Some(s(" https://cdn.example/ "));
    assert_eq!(build_public_base_url(&r, "17"), "https://cdn.example/xuntian/map/17/");
    r.public_base_url = Some(s("  "));
    assert_eq!(
        build_public_base_url(&r, "17"),
        "https://xuntian-pro-public.oss-cn-beijing.aliyuncs.com/xuntian/map/17/"
    );
}

#[test]
fn safe_keys_go_into_urls_as_they_are() {
    assert_eq!(build_put_url("b", "e", "a/b-c_d.~1"), Ok(s("https://b.e/a/b-c_d.~1")));
}

#[test]
fn other_keys_are_encoded_by_segment() {
    assert_eq!(
        build_put_url("b", "e", "租户/a.b/x y.webp"),
        Ok(s("https://b.e/%E7%A7%9F%E6%88%B7/a.b/x%20y.webp"))
    );
    assert_eq!(build_put_url("b", "e.com", "图.png"), Ok(s("https://b.e.com/%E5%9B%BE.png")));
    assert_eq!(build_put_url("b", "e", "a-b_c ~.d.."), Ok(s("https://b.e/a%2Db%5Fc%20%7E.d..")));
}

#[test]
fn objects_lie_below_the_public_url() {
    let r = target();
    let rel = "12/3/4.webp";
    let key = build_object_key(&r.prefix, "17", rel);
    let url = build_put_url(&r.bucket, &r.endpoint, &key).unwrap();
    assert_eq!(url, format!("{}{}", build_public_base_url(&r, "17"), rel));
}

#[test]
fn signatures_have_known_values() {
    assert_eq!(
        sign_hmac_sha1_base64("Jefe", "what do ya want for nothing?"),
        Ok(s("7/zfauXrL6LSdBbV8YTfnCWafHk="))
    );
    assert_eq!(sign_hmac_sha1_base64("", ""), Ok(s("+9sdGxiqbAgyS31ktx+3Y3BpDh0=")));
}

#[test]
fn requests_are_signed() {
    let mut r = target();
    r.security_token = Some(s("tok"));
    let key = "xuntian/map/17/0/0.webp";
    let date = "Sun, 06 Nov 1994 08:49:37 GMT";
    assert_eq!(
        build_string_to_sign(&r, key, "image/webp", date),
        "PUT\n\nimage/webp\nSun, 06 Nov 1994 08:49:37 GMT\nx-oss-security-token:tok\n/xuntian-pro-public/xuntian/map/17/0/0.webp"
    );
    let req = build_put_request(&r, key, "image/webp", date).unwrap();
    assert_eq!(req.authorization, "OSS id:gJlu3BcUDyVnlFf0Ysi2YecPCrs=");
    assert_eq!(req.date, date);
    assert_eq!(req.content_type, "image/webp");
    assert_eq!(req.security_token, Some(s("tok")));
    assert_eq!(
        req.url,
        "https://xuntian-pro-public.oss-cn-beijing.aliyuncs.com/xuntian/map/17/0/0.webp"
    );
}

#[test]
fn blank_tokens_are_not_sent() {
    assert_eq!(canonicalized_oss_headers(Some("t")), "x-oss-security-token:t\n");
    assert_eq!(canonicalized_oss_headers(Some("  ")), "");
    assert_eq!(canonicalized_oss_headers(None), "");
    let mut r = target();
    r.security_token = Some(s(" "));
    assert_eq!(build_put_request(&r, "k", "t", "d").unwrap().security_token, None);
}

#[test]
fn content_types_follow_the_extension() {
    for (path, expected) in [
        ("a.png", "image/png"),
        ("a.JPG", "image/jpeg"),
        ("a.jpeg", "image/jpeg"),
        ("x/a.webp", "image/webp"),
        ("a.json", "application/json"),
        ("a.xml", "application/xml"),
        ("a.pbf", "application/x-protobuf"),
        ("a.tif", "application/octet-stream"),
        ("a", "application/octet-stream"),
    ] {
        assert_eq!(guess_content_type(path), expected);
    }
    assert_eq!(content_type_of(None), "application/octet-stream");
    assert_eq!(content_type_of(Some("WEBP")), "image/webp");
}

#[test]
fn long_answers_are_cut() {
    assert_eq!(shorten("层层层", 3), "层层层");
    assert_eq!(shorten("层层层图", 3), "层层层...");
    assert_eq!(shorten("", 0), "");
    assert_eq!(shorten("a", 0), "...");
}

#[test]
fn answers_are_read() {
    assert_eq!(read_put_answer("u", 200, "x"), Ok(s("u")));
    assert_eq!(read_put_answer("u", 299, "x"), Ok(s("u")));
    assert_eq!(read_put_answer("u", 403, "denied"), Err(s("OSS 拒绝访问(403): denied")));
    assert_eq!(read_put_answer("u", 503, "busy"), Err(s("OSS 上传失败(503): busy")));
    assert_eq!(read_put_answer("u", 301, ""), Err(s("OSS 上传失败(301): ")));
    let long = "x".repeat(300);
    assert_eq!(
        read_put_answer("u", 500, &long),
        Err(format!("OSS 上传失败(500): {}...", "x".repeat(240)))
    );
}

#[test]
fn one_file_is_put() {
    let r = target();
    let key = "xuntian/map/17/0/0.webp";
    match upload_single_file(&r, key, "/t/0/0.webp", &PutEvent::BodyRead(Ok(()))) {
        PutAction::Send(req) => {
            assert_eq!(req.content_type, "image/webp");
            let payload = build_string_to_sign(&r, key, "image/webp", &req.date);
            let sig = sign_hmac_sha1_base64("secret", &payload).unwrap();
            assert_eq!(req.authorization, format!("OSS id:{}", sig));
            assert!(req.date.ends_with(" GMT"));
        }
        PutAction::Finish(_) => panic!("not sent"),
    }
    let finish = |e: PutEvent| match upload_single_file(&r, key, "/t/0/0.webp", &e) {
        PutAction::Finish(result) => result,
        PutAction::Send(_) => panic!("sent again"),
    };
    assert_eq!(
        finish(PutEvent::BodyRead(Err(s("gone")))),
        Err(s("读取本地文件失败 /t/0/0.webp: gone"))
    );
    assert_eq!(
        finish(PutEvent::SendFailed(s("reset"))),
        Err(s("OSS 请求失败 /t/0/0.webp: reset"))
    );
    assert_eq!(
        finish(PutEvent::Answered { status: 200, body: s("") }),
        Ok(s("https://xuntian-pro-public.oss-cn-beijing.aliyuncs.com/xuntian/map/17/0/0.webp"))
    );
}

#[test]
fn passing_errors_are_recognised() {
    for e in [
        "Operation TimeOut", "timed out", "Connection reset", "(502)", "503", "504", "429",
    ] {
        assert!(is_retryable_error(e), "{}", e);
    }
    assert!(is_retryable_error("层 TIMED OUT"));
    for status in [429, 502, 503, 504] {
        let e = read_put_answer("u", status, "忙").unwrap_err();
        assert!(is_retryable_error(&e), "{}", e);
    }
    assert!(!is_retryable_error(&read_put_answer("u", 400, "坏").unwrap_err()));
    assert!(!is_retryable_error("OSS 拒绝访问(403): denied"));
    assert!(!is_retryable_error(""));
    assert!(!is_transient_text("TIMEOUT"));
    assert!(is_transient_text("timeout"));
}

#[test]
fn attempts_are_limited() {
    let busy = || Err(s("OSS 上传失败(503): busy"));
    let pause = |a: RetryAction| match a {
        RetryAction::Again { pause_ms } => pause_ms,
        RetryAction::Return(_) => panic!("no pause"),
    };
    let end = |a: RetryAction| match a {
        RetryAction::Return(r) => r,
        RetryAction::Again { .. } => panic!("not over"),
    };
    assert_eq!(pause(upload_single_file_with_retry(0, busy())), 200);
    assert_eq!(pause(upload_single_file_with_retry(1, busy())), 400);
    assert_eq!(end(upload_single_file_with_retry(2, busy())), busy());
    assert_eq!(end(upload_single_file_with_retry(0, Ok(s("u")))), Ok(s("u")));
    assert_eq!(end(upload_single_file_with_retry(0, Err(s("no")))), Err(s("no")));
    assert_eq!(pause(after_attempt(1, Err(s("no")), true)), 400);
}

#[test]
fn workers_are_limited() {
    assert_eq!(upload_worker_count(Some(1)), 2);
    assert_eq!(upload_worker_count(Some(2)), 2);
    assert_eq!(upload_worker_count(Some(5)), 5);
    assert_eq!(upload_worker_count(Some(64)), 8);
    assert_eq!(upload_worker_count(None), 4);
}

#[test]
fn pages_and_logs_are_not_uploaded() {
    for p in ["a.html", "a.HTM", "x/doc.kml", "a.txt", "a.Log"] {
        assert!(!should_upload_file(p), "{}", p);
    }
    for p in ["a.webp", "a", ".html", "a.xml", "html"] {
        assert!(should_upload_file(p), "{}", p);
    }
    assert!(should_upload_extension(None));
    assert!(!should_upload_extension(Some("KML")));
}

#[test]
fn files_are_collected_in_order() {
    let walked = vec![s("/o/2/b.webp"), s("/o/10/a.webp"), s("/o/leaflet.html"), s("/o/2/a.webp")];
    assert_eq!(
        collect_upload_files(&walked, &vec![]),
        vec!["/o/10/a.webp", "/o/2/a.webp", "/o/2/b.webp"]
    );
    assert!(collect_upload_files(&vec![s("/o/a.log")], &vec![]).is_empty());
}

#[test]
fn files_between_stages_are_left_out() {
    let walked = vec![
        s("/o/a_wgs84.tif"),
        s("/o/0/0/0.webp"),
        s("/o/w/a_3857.tif"),
        s("/o/b_wgs84.tif"),
        s("/o/0/a_wgs84.tif"),
    ];
    let between = vec![s("/o/a_wgs84.tif"), s("/o/./w//a_3857.tif")];
    assert_eq!(
        collect_upload_files(&walked, &between),
        vec!["/o/0/0/0.webp", "/o/0/a_wgs84.tif", "/o/b_wgs84.tif"]
    );
    assert!(is_among("/o/a_wgs84.tif", &between));
    assert!(is_among("/o/w/a_3857.tif", &between));
    assert!(!is_among("/o/a_3857.tif", &between));
    assert!(!is_among("/o/a_wgs84.tif", &vec![]));
    let plan =
        upload_tiles_to_oss("/o", "17", &config(), &no_env(), &walked, &between).unwrap();
    assert_eq!(plan.total, 3);
    for group in &plan.groups {
        for item in &group.files {
            assert!(!is_among(&item.file_path, &between), "{}", item.file_path);
        }
    }
    assert_eq!(
        upload_tiles_to_oss("/o", "17", &config(), &no_env(), &between, &between).unwrap_err(),
        "输出目录为空，没有可上传文件"
    );
}

#[test]
fn items_have_their_keys() {
    let item = upload_item("/o", "/o/2/b.webp");
    assert_eq!(item.file_path, "/o/2/b.webp");
    assert_eq!(item.rel_key, "2/b.webp");
    assert_eq!(upload_item("/other", "/o/2/b.webp").rel_key, "o/2/b.webp");
    assert_eq!(upload_item("/o/", "/o/a\\b.webp").rel_key, "a/b.webp");
}

#[test]
fn files_are_grouped_by_level() {
    let files = vec![s("/o/10/a.webp"), s("/o/2/a.webp"), s("/o/10/b.webp"), s("/o/meta.json")];
    let groups = group_files_by_z("/o", &files);
    let levels: Vec<String> = groups.iter().map(|g| g.z.clone()).collect();
    assert_eq!(levels, vec!["10", "2", "meta.json"]);
    let keys: Vec<String> = groups[0].files.iter().map(|i| i.rel_key.clone()).collect();
    assert_eq!(keys, vec!["10/a.webp", "10/b.webp"]);
    let total: usize = groups.iter().map(|g| g.files.len()).sum();
    assert_eq!(total, files.len());
    assert_eq!(zoom_level("12/3/4.webp"), "12");
    assert_eq!(zoom_level(""), "_misc");
    assert_eq!(zoom_level("/x"), "_misc");
}

#[test]
fn outcomes_are_tallied() {
    let mut t = UploadTally::new();
    assert_eq!(t.record("meta.json", Ok(s("u0"))), Some(1));
    assert_eq!(t.sample_tile_url, None);
    assert_eq!(t.record("1/a.webp", Err(s("no"))), None);
    assert_eq!(t.record("1/b.jpg", Ok(s("u1"))), Some(2));
    assert_eq!(t.record("1/c.webp", Ok(s("u2"))), Some(3));
    assert_eq!(t.sample_tile_url, Some(s("u1")));
    assert_eq!(t.uploaded_count, 3);
    assert_eq!(t.failures.len(), 1);
    assert_eq!(t.failures[0].file_path, "1/a.webp");
    assert_eq!(t.failures[0].error, "no");
    let mut jpeg = UploadTally::new();
    jpeg.record("a.jpeg", Ok(s("j")));
    assert_eq!(jpeg.sample_tile_url, Some(s("j")));
}

#[test]
fn an_upload_is_planned_and_summed_up() {
    let walked = vec![s("/o/1/a.webp"), s("/o/0/a.webp"), s("/o/index.html")];
    let plan = upload_tiles_to_oss("/o", "17", &config(), &no_env(), &walked, &vec![]).unwrap();
    assert_eq!(plan.total, 2);
    assert_eq!(plan.groups.len(), 2);
    let item = &plan.groups[0].files[0];
    assert_eq!(plan.next_object(item, false), Some(s("xuntian/map/17/0/a.webp")));
    assert_eq!(plan.next_object(item, true), None);
    let mut t = UploadTally::new();
    t.record("0/a.webp", Ok(s("u")));
    t.record("1/a.webp", Err(s("e")));
    assert_eq!(plan.finish(t.clone(), true).unwrap_err(), "OSS 上传已被取消");
    let sum = plan.finish(t, false).unwrap();
    assert_eq!(sum.uploaded_count, 1);
    assert_eq!(sum.failed_count, 1);
    assert_eq!(sum.bucket, "xuntian-pro-public");
    assert_eq!(sum.prefix, "xuntian/map");
    assert_eq!(
        sum.public_base_url,
        "https://xuntian-pro-public.oss-cn-beijing.aliyuncs.com/xuntian/map/17/"
    );
    assert_eq!(sum.sample_tile_url, Some(s("u")));
    assert_eq!(sum.failures[0].file_path, "1/a.webp");
}

#[test]
fn uploads_that_cannot_begin() {
    let walked = vec![s("/o/index.html")];
    assert_eq!(
        upload_tiles_to_oss("/o", "17", &config(), &no_env(), &walked, &vec![]).unwrap_err(),
        "输出目录为空，没有可上传文件"
    );
    let mut c = config();
    c.access_key_id = None;
    assert_eq!(
        upload_tiles_to_oss("/o", "17", &c, &no_env(), &vec![], &vec![]).unwrap_err(),
        "缺少 OSS AccessKeyId（uploadConfig 或 OSS_ACCESS_KEY_ID）"
    );
    assert_eq!(client_failure("x"), "创建 HTTP 客户端失败: x");
    assert_eq!(pool_failure("x"), "初始化上传线程池失败: x");
}

fn context() -> UploadContext {
    UploadContext {
        tenant_id: s("租户 1"),
        ts: s(" 1730123456789 "),
        platform: s(" Win "),
        layer_name: s("图层:a/b"),
    }
}

#[test]
fn folders_of_tenants() {
    assert_eq!(context_folder(&context()), Some(s("租户_1/图层_a_b_1730123456789")));
    assert_eq!(
        build_upload_run_segment(&Some(context())),
        Ok(s("租户_1/图层_a_b_1730123456789"))
    );
    let mut c = context();
    c.platform = s("linux");
    assert_eq!(context_folder(&c), None);
    let mut c = context();
    c.ts = s("12a");
    assert_eq!(context_folder(&c), None);
    let mut c = context();
    c.tenant_id = s(" // ");
    assert_eq!(context_folder(&c), None);
    let mut c = context();
    c.ts = s("");
    assert_eq!(context_folder(&c), Some(s("租户_1/图层_a_b_")));
    c.platform = s("");
    let id = build_upload_run_segment(&Some(c)).unwrap();
    assert!(id.chars().all(|x| x.is_ascii_digit()));
    let id = build_upload_run_segment(&None).unwrap();
    assert!(id.parse::<u128>().unwrap() > 1_600_000_000_000);
}

#[test]
fn folder_names_are_cleaned() {
    assert_eq!(sanitize_folder_segment("  a b\tc "), "a_b_c");
    assert_eq!(sanitize_folder_segment("/a\\b:c*d?e\"f<g>h|i/"), "a_b_c_d_e_f_g_h_i");
    assert_eq!(sanitize_folder_segment("__"), "");
    assert_eq!(sanitize_folder_segment(&"图".repeat(100)), "图".repeat(80));
    let once = sanitize_folder_segment(" 图层 <1> ");
    assert_eq!(sanitize_folder_segment(&once), once);
}

#[test]
fn whatever_is_asked_for_goes_to_one_place() {
    for prefix in ["", "/", "a/b", "../x"] {
        let mut c = config();
        c.prefix = Some(s(prefix));
        let r = resolve_config(&c, &no_env()).unwrap();
        let key = build_object_key(&r.prefix, " 17 ", "0/0.webp");
        assert_eq!(key, "xuntian/map/17/0/0.webp");
        assert_eq!(
            build_put_url(&r.bucket, &r.endpoint, &key),
            Ok(s("https://xuntian-pro-public.oss-cn-beijing.aliyuncs.com/xuntian/map/17/0/0.webp"))
        );
    }
}

#[test]
fn different_objects_have_different_urls() {
    let keys = ["a b", "a%20b", "a/b", "a%2Fb", "a.b", "a%2Eb", "层", "%E5%B1%82"];
    let urls: Vec<String> = keys.iter().map(|k| build_put_url("b", "e", k).unwrap()).collect();
    for i in 0..urls.len() {
        for j in 0..i {
            assert_ne!(urls[i], urls[j]);
        }
    }
}

#[test]
fn prefixes_and_keys_are_stable() {
    assert_eq!(normalize_prefix(&normalize_prefix("//a//b/")), "a//b");
    assert_eq!(normalize_relative_key("//\\a"), "a");
}
