use coolapk::accounts::{
    checked_login_uid, default_accounts_root, legacy_account_store, list_accounts, load_accounts,
    login_account, remove_account_from, restored_cookie, save_account_to, switched_account_profile,
    AccountError,
};
use coolapk::api::ApiError;
use coolapk::json::{Json, JsonNumber};
use coolapk::media::{
    fetched_image_data_url, forwarded_range, image_fetch_plan, is_fetchable_page,
    is_probeable_live_photo_video, is_proxyable_weibo_video, live_photo_request, live_photo_video,
    page_gets_cookie, proxied_video_response, ImageFetchError, LivePhotoError,
};
use coolapk::replies::{
    clean_feed_reply, feed_reply_list, feed_reply_list_query, sub_reply_list, sub_reply_list_query,
    ReplyError,
};
use coolapk::upload::{
    oss_authorization, oss_content_md5, oss_object_url, parse_upload_ticket, string_to_sign,
    upload_prepare_form, upload_target_uid, uploaded_image_address, UploadError, OSS_CALLBACK,
    OSS_CALLBACK_VAR,
};
use serde_json::Value;

fn to_json(v: &Value) -> Json {
    match v {
        Value::Null => Json::Null,
        Value::Bool(b) => Json::Bool(*b),
        Value::Number(n) => Json::Number(match (n.as_u64(), n.as_i64()) {
            (Some(u), _) => JsonNumber::PosInt(u),
            (None, Some(i)) => JsonNumber::NegInt(i),
            _ => JsonNumber::Float(n.to_string()),
        }),
        Value::String(s) => Json::Str(s.clone()),
        Value::Array(a) => Json::Array(a.iter().map(to_json).collect()),
        Value::Object(m) => Json::Object(m.iter().map(|(k, v)| (k.clone(), to_json(v))).collect()),
    }
}

fn from_json(j: &Json) -> Value {
    match j {
        Json::Null => Value::Null,
        Json::Bool(b) => Value::Bool(*b),
        Json::Number(JsonNumber::PosInt(u)) => Value::from(*u),
        Json::Number(JsonNumber::NegInt(i)) => Value::from(*i),
        Json::Number(JsonNumber::Float(t)) => serde_json::from_str(t).unwrap_or(Value::Null),
        Json::Str(s) => Value::String(s.clone()),
        Json::Array(a) => Value::Array(a.iter().map(from_json).collect()),
        Json::Object(f) => {
            let mut m = serde_json::Map::new();
            for (k, v) in f {
                m.insert(k.clone(), from_json(v));
            }
            Value::Object(m)
        }
    }
}

fn parse(text: &str) -> Json {
    let v: Value = serde_json::from_str(text).expect("fixture is JSON");
    to_json(&v)
}

fn pairs(q: &[(&'static str, String)]) -> Vec<(String, String)> {
    q.iter().map(|(k, v)| (k.to_string(), v.clone())).collect()
}

fn owned(q: &[(&str, &str)]) -> Vec<(String, String)> {
    q.iter().map(|(k, v)| (k.to_string(), v.to_string())).collect()
}

// ---------------------------------------------------------------------------
// Image upload
// ---------------------------------------------------------------------------

#[test]
fn upload_needs_a_logged_in_uid() {
    assert_eq!(upload_target_uid(Some("SESSID=x; uid=123 "), None).ok(), Some("123".to_string()));
    assert_eq!(upload_target_uid(Some("uid=123"), Some("9")).ok(), Some("9".to_string()));
    assert!(matches!(upload_target_uid(None, Some("9")), Err(UploadError::NotLoggedIn)));
    assert!(matches!(upload_target_uid(Some("SESSID=x"), None), Err(UploadError::NotLoggedIn)));
}

#[test]
fn upload_ticket_request_describes_the_file() {
    let form = pairs(&upload_prepare_form(b"abc", "a\"b.jpg", "feed", "42"));
    assert_eq!(
        form,
        owned(&[
            ("uploadBucket", "image"),
            ("uploadDir", "feed"),
            ("is_anonymous", "0"),
            (
                "uploadFileList",
                r#"[{"md5":"900150983cd24fb0d6963f7d28e17f72","name":"a\"b.jpg","resolution":"0x0"}]"#
            ),
            ("toUid", "42"),
            ("feed_type", "feed"),
        ])
    );
    let message = pairs(&upload_prepare_form(b"abc", "x.png", "message", "7"));
    assert_eq!(message[0], ("uploadBucket".to_string(), "message".to_string()));
    assert_eq!(message[5], ("feed_type".to_string(), String::new()));
}

#[test]
fn upload_ticket_is_read_from_the_prepare_answer() {
    let answer = parse(
        r#"{"data":{"fileInfo":[{"uploadFileName":"feed/2024/a.jpg","url":""}],
            "uploadPrepareInfo":{"bucket":"coolapk","endPoint":"oss-cn-shanghai.aliyuncs.com",
            "accessKeyId":"id","accessKeySecret":"secret","securityToken":"token",
            "uploadImagePrefix":"https://image.coolapk.com//"}}}"#,
    );
    let ticket = match parse_upload_ticket(&answer) {
        Ok(t) => t,
        Err(_) => panic!("a complete ticket"),
    };
    assert_eq!(ticket.upload_file_name, "feed/2024/a.jpg");
    assert_eq!(ticket.existing_url, None);
    assert_eq!(ticket.bucket, "coolapk");
    assert_eq!(ticket.image_prefix, "https://image.coolapk.com");
    assert_eq!(ticket.security_token, "token");

    let default_prefix = parse(
        r#"{"data":{"fileInfo":[{"uploadFileName":"n","url":"https://image.coolapk.com/old.jpg"}],
            "uploadPrepareInfo":{"bucket":"b","endPoint":"e","accessKeyId":"i","accessKeySecret":"s"}}}"#,
    );
    let t = parse_upload_ticket(&default_prefix).ok().expect("ticket");
    assert_eq!(t.image_prefix, "http://image.coolapk.com");
    assert_eq!(t.existing_url, Some("https://image.coolapk.com/old.jpg".to_string()));
}

#[test]
fn upload_ticket_failures_name_their_cause() {
    let refused = parse_upload_ticket(&parse(r#"{"message":"请先绑定手机","data":null}"#));
    assert!(matches!(refused, Err(UploadError::PrepareFailed(ref m)) if m == "请先绑定手机"));
    let no_file = parse_upload_ticket(&parse(r#"{"data":{"uploadPrepareInfo":{}}}"#));
    assert!(matches!(no_file, Err(UploadError::PrepareFailed(ref m)) if m == "fileInfo 缺失"));
    let no_data = parse_upload_ticket(&parse(r#"{}"#));
    assert!(matches!(no_data, Err(UploadError::PrepareFailed(ref m)) if m == "服务端未返回凭证数据"));
    let incomplete = parse_upload_ticket(&parse(
        r#"{"data":{"fileInfo":[{"uploadFileName":"n"}],"uploadPrepareInfo":{"bucket":"b"}}}"#,
    ));
    assert!(matches!(incomplete, Err(UploadError::Incomplete(_))));
    assert_eq!(
        UploadError::PrepareFailed("x".to_string()).message(),
        "上传凭证获取失败（x）"
    );
}

#[test]
fn oss_signature_follows_version_one() {
    assert_eq!(oss_content_md5(b"abc"), "kAFQmDzST7DWlj99KOF/cg==");
    let signed = string_to_sign("MD5", "image/jpeg", "Mon, 01 Jan 2024 00:00:00 GMT", "tok", "bkt", "a/b.jpg");
    assert_eq!(
        signed,
        format!(
            "PUT\nMD5\nimage/jpeg\nMon, 01 Jan 2024 00:00:00 GMT\nx-oss-callback:{}\nx-oss-callback-var:{}\nx-oss-security-token:tok\n/bkt/a/b.jpg",
            OSS_CALLBACK, OSS_CALLBACK_VAR
        )
    );
    assert_eq!(
        oss_authorization("id", "key", "The quick brown fox jumps over the lazy dog"),
        "OSS id:3nybhbi3iqa8ino29wqQcBydtNk="
    );
}

#[test]
fn oss_object_url_uses_bucket_subdomain() {
    assert_eq!(oss_object_url("bkt", "oss-cn-shanghai.aliyuncs.com", "a.jpg"), "https://bkt.oss-cn-shanghai.aliyuncs.com/a.jpg");
    assert_eq!(oss_object_url("bkt", "http://oss.example.com", "a.jpg"), "https://bkt.oss.example.com/a.jpg");
    assert_eq!(oss_object_url("bkt", "https://https://x", "a"), "https://bkt.x/a");
    assert_eq!(
        uploaded_image_address("http://image.coolapk.com/", "/feed/x.jpg", "{}").ok(),
        Some("http://image.coolapk.com/feed/x.jpg".to_string())
    );
    assert!(matches!(
        uploaded_image_address("image.coolapk.com", "x.jpg", "body"),
        Err(UploadError::Unexpected(ref b)) if b == "body"
    ));
}

// ---------------------------------------------------------------------------
// Replies
// ---------------------------------------------------------------------------

#[test]
fn feed_reply_query_defaults_to_newest_first() {
    let q = feed_reply_list_query("77", 2, "", " ", "", 0).ok().expect("query");
    assert_eq!(
        pairs(&q),
        owned(&[
            ("id", "77"),
            ("listType", "lastupdate_desc"),
            ("page", "2"),
            ("discussMode", "1"),
            ("feedType", "feed"),
            ("blockStatus", "0"),
            ("fromFeedAuthor", "0"),
        ])
    );
    let author = feed_reply_list_query("77", 1, "5", "9", "", 1).ok().expect("query");
    assert!(!pairs(&author).iter().any(|(k, _)| k == "listType"));
    assert!(pairs(&author).contains(&("firstItem".to_string(), "5".to_string())));
    assert!(matches!(feed_reply_list_query("77", 1, "", "", "random", 0), Err(ReplyError::UnsupportedListType(ref t)) if t == "random"));
    assert!(matches!(feed_reply_list_query("77", 1, "", "", "", 2), Err(ReplyError::UnsupportedAuthorFilter(2))));
    assert_eq!(ReplyError::UnsupportedAuthorFilter(2).message(), "不支持的楼主评论筛选值：2");
}

#[test]
fn sub_reply_query_trims_its_ids() {
    assert!(matches!(sub_reply_list_query("  ", 1, ""), Err(ReplyError::EmptyReplyId)));
    let q = pairs(&sub_reply_list_query(" 12 ", 3, " 40 ").ok().expect("query"));
    assert_eq!(q[0], ("id".to_string(), "12".to_string()));
    assert_eq!(q[1], ("listType".to_string(), String::new()));
    assert_eq!(q.last(), Some(&("lastItem".to_string(), "40".to_string())));
}

#[test]
fn feed_replies_are_cleaned_and_separators_dropped() {
    let raw = parse(
        r#"{"data":[
            {"id":5,"userInfo":{"username":"作者","level":7},"userAvatar":"/a.png","message":"hi",
             "replyRows":[{"id":6},{"id":7}],"userAction":{"like":1},"likenum":3},
            {"title":"separator"},
            {"id":"8","description":"desc"}
        ]}"#,
    );
    let page = from_json(&feed_reply_list(&raw));
    assert_eq!(page["code"], 200);
    let data = page["data"].as_array().expect("list");
    assert_eq!(data.len(), 2);
    assert_eq!(data[0]["id"], "5");
    assert_eq!(data[0]["username"], "作者");
    assert_eq!(data[0]["userLevel"], "7");
    assert_eq!(data[0]["userAvatar"], "https://image.coolapk.com/a.png");
    assert_eq!(data[0]["replyRowsCount"], 2);
    assert_eq!(data[0]["userAction"]["like"], 1);
    assert_eq!(data[0]["likenum"], 3);
    assert_eq!(data[1]["username"], "酷友");
    assert_eq!(data[1]["message"], "desc");
    assert_eq!(data[1]["targetRow"], Value::Null);
    assert!(clean_feed_reply(&parse(r#"[1]"#)).is_none());
}

#[test]
fn sub_replies_keep_only_children_of_the_parent() {
    let raw = parse(
        r#"{"data":[
            {"id":"10","rid":"1"},
            {"id":"11","rid":"10","rusername":"甲"},
            {"id":"12","rid":"99"},
            {"id":"13"},
            {"id":"14","rrid":"10","replynum":4}
        ]}"#,
    );
    let page = match sub_reply_list(raw, " 10 ") {
        Ok(p) => from_json(&p),
        Err(_) => panic!("a page"),
    };
    let ids: Vec<&str> = page["data"].as_array().expect("list").iter().map(|r| r["id"].as_str().unwrap_or("")).collect();
    assert_eq!(ids, vec!["11", "13", "14"]);
    assert_eq!(page["data"][0]["replyUsername"], "甲");
    assert_eq!(page["data"][2]["replyRowsCount"], 4);
    assert!(matches!(sub_reply_list(parse(r#"{"data":{}}"#), "1"), Err(ReplyError::BadShape)));
    assert!(matches!(
        sub_reply_list(parse(r#"{"error":"登录已过期"}"#), "1"),
        Err(ReplyError::Api(ApiError::Message(ref m))) if m == "登录已过期"
    ));
}

// ---------------------------------------------------------------------------
// Media
// ---------------------------------------------------------------------------

#[test]
fn image_fetch_plan_keeps_credentials_on_coolapk_hosts() {
    let coolapk = image_fetch_plan("http://image.coolapk.com/a.jpg").ok().expect("plan");
    assert_eq!(coolapk.url, "https://image.coolapk.com/a.jpg");
    assert!(coolapk.send_cookie);
    assert!(!coolapk.api_host);
    assert_eq!(coolapk.referer, "https://www.coolapk.com/");
    let weibo = image_fetch_plan("https://wx1.sinaimg.cn/large/x.jpg").ok().expect("plan");
    assert!(!weibo.send_cookie);
    assert_eq!(weibo.referer, "https://weibo.com/");
    let api = image_fetch_plan("https://api.coolapk.com/v6/message/showImage?id=1").ok().expect("plan");
    assert!(api.api_host && api.send_cookie);
    assert!(matches!(image_fetch_plan("https://192.168.1.2/x.png"), Err(ImageFetchError::PrivateHost(ref h)) if h == "192.168.1.2"));
    assert!(matches!(image_fetch_plan("http://localhost/x.png"), Err(ImageFetchError::PrivateHost(_))));
    assert!(matches!(image_fetch_plan("ftp://example.com/x.png"), Err(ImageFetchError::DisallowedScheme)));
    assert!(matches!(image_fetch_plan("not a url"), Err(ImageFetchError::InvalidUrl(ref e)) if e == "relative URL without a base"));
}

#[test]
fn fetched_images_become_data_urls() {
    assert_eq!(
        fetched_image_data_url(true, "200", Some("image/png"), b"abc").ok(),
        Some("data:image/png;base64,YWJj".to_string())
    );
    assert_eq!(
        fetched_image_data_url(true, "200", None, b"").ok(),
        Some("data:image/jpeg;base64,".to_string())
    );
    assert!(matches!(fetched_image_data_url(true, "200", Some("text/html"), b""), Err(ImageFetchError::UnexpectedType(ref t)) if t == "text/html"));
    let failed = fetched_image_data_url(false, "404 Not Found", Some("image/png"), b"");
    assert_eq!(failed.err().map(|e| e.message()), Some("Coolapk image CDN returned HTTP 404 Not Found".to_string()));
}

#[test]
fn live_photo_request_restores_the_api_image_address() {
    let q = live_photo_request(" https://image.coolapk.com/feed/a.jpg?x=1 ", " 123 ", "reply").ok().expect("request");
    assert_eq!(q.pic_url, "http://image.coolapk.com/feed/a.jpg?x=1");
    assert_eq!(q.id, "reply_123");
    let other = live_photo_request("https://static.coolapk.com/a.jpg", "5", "whatever").ok().expect("request");
    assert_eq!(other.pic_url, "https://static.coolapk.com/a.jpg");
    assert_eq!(other.id, "feed_5");
    assert!(matches!(live_photo_request("https://example.com/a.jpg", "5", ""), Err(LivePhotoError::NotCoolapkImage)));
    assert!(matches!(live_photo_request("https://image.coolapk.com/a.jpg", "a\u{7}b", ""), Err(LivePhotoError::InvalidContentId)));
    assert!(matches!(live_photo_request("https://image.coolapk.com/a.jpg", &"9".repeat(129), ""), Err(LivePhotoError::InvalidContentId)));
}

#[test]
fn live_photo_answer_gives_the_video() {
    let req = "https://api.coolapk.com/v6/livePhoto/showVideo?picUrl=x&id=feed_1";
    assert_eq!(
        live_photo_video(true, Some("https://video.coolapk.com/1.mp4"), req, false, "302", "", None).ok(),
        Some("https://video.coolapk.com/1.mp4".to_string())
    );
    let body = "e".repeat(400);
    let failed = live_photo_video(true, Some(req), req, false, "500", &body, None);
    assert!(matches!(failed, Err(LivePhotoError::ResolverFailed(ref s, ref d)) if s == "500" && d.chars().count() == 300));
    let answer = parse(r#"{"data":{"url":" https://video.coolapk.com/2.mp4 "}}"#);
    assert_eq!(
        live_photo_video(false, None, req, true, "200", "", Some(&answer)).ok(),
        Some("https://video.coolapk.com/2.mp4".to_string())
    );
    assert!(matches!(live_photo_video(false, None, req, true, "200", "", None), Err(LivePhotoError::NoVideo)));
}

#[test]
fn video_proxy_only_serves_weibo_https() {
    assert!(is_proxyable_weibo_video(" https://f.video.weibocdn.com/o0/x.mp4 "));
    assert!(!is_proxyable_weibo_video("http://f.video.weibocdn.com/x.mp4"));
    assert!(!is_proxyable_weibo_video("https://example.com/x.mp4"));
    assert!(is_probeable_live_photo_video("https://video.coolapk.com/1.mp4"));
    assert!(!is_probeable_live_photo_video("http://video.coolapk.com/1.mp4"));
    assert_eq!(forwarded_range(Some(" ")), None);
    assert_eq!(forwarded_range(Some("bytes=0-")), Some("bytes=0-".to_string()));
    let r = proxied_video_response(206, Some("application/octet-stream"), Some(3), None, vec![1, 2, 3]);
    assert_eq!(r.content_type, "video/mp4");
    assert_eq!(r.body, vec![1, 2, 3]);
    assert!(is_fetchable_page("https://www.coolapk.com/feed/1"));
    assert!(!is_fetchable_page("file:///etc/passwd"));
    assert!(page_gets_cookie("https://www.coolapk.com/feed/1"));
    assert!(!page_gets_cookie("https://evil.example/coolapk.com"));
}

// ---------------------------------------------------------------------------
// Saved accounts
// ---------------------------------------------------------------------------

#[test]
fn saved_account_is_restored_and_listed_without_cookie() {
    let root = match save_account_to(default_accounts_root(), "123", "酷友", "a.png", "SESSID=abc; uid=123\n") {
        Ok(r) => r,
        Err(_) => panic!("saved"),
    };
    assert_eq!(restored_cookie(&root), Some("SESSID=abc; uid=123".to_string()));
    let (target, cookie) = login_account(&root, "123").ok().expect("found");
    assert_eq!(cookie, "SESSID=abc; uid=123");
    assert_eq!(from_json(&target)["username"], "酷友");
    let listing = from_json(&list_accounts(&root));
    assert_eq!(listing["data"][0]["uid"], "123");
    assert!(listing["data"][0].get("cookie").is_none());
    let again = match save_account_to(root, "123", "新名字", "", "SESSID=def; uid=123") {
        Ok(r) => r,
        Err(_) => panic!("saved"),
    };
    assert_eq!(load_accounts(&again).len(), 1);
    assert_eq!(restored_cookie(&again), Some("SESSID=def; uid=123".to_string()));
}

#[test]
fn invalid_accounts_are_refused() {
    assert!(matches!(save_account_to(default_accounts_root(), "10000", "", "", "SESSID=abc"), Err(AccountError::InvalidUid)));
    assert!(matches!(save_account_to(default_accounts_root(), " ", "", "", "SESSID=abc"), Err(AccountError::InvalidUid)));
    assert!(matches!(save_account_to(default_accounts_root(), "5", "", "", "SESSID=deleted"), Err(AccountError::NoSession)));
    assert!(matches!(login_account(&default_accounts_root(), "5"), Err(AccountError::NotFound)));
}

#[test]
fn removed_account_is_gone_and_clears_its_login() {
    let root = save_account_to(default_accounts_root(), "1", "", "", "SESSID=a; uid=1").ok().expect("saved");
    let root = save_account_to(root, "2", "", "", "SESSID=b; uid=2").ok().expect("saved");
    let (after, clear) = remove_account_from(root, "2", "SESSID=a; uid=1");
    assert!(clear, "the last login is cleared");
    assert_eq!(load_accounts(&after).len(), 1);
    assert!(matches!(login_account(&after, "2"), Err(AccountError::NotFound)));
    let (kept, clear_other) = remove_account_from(after, "9", "SESSID=a; uid=1");
    assert!(!clear_other);
    assert_eq!(load_accounts(&kept).len(), 1);
}

#[test]
fn legacy_cookie_file_becomes_a_store() {
    let store = from_json(&legacy_account_store(" uid=5; SESSID=x \n").expect("store"));
    assert_eq!(store["lastLoginUid"], "5");
    assert_eq!(store["accounts"][0]["cookie"], "uid=5; SESSID=x");
    assert!(legacy_account_store("SESSID=x").is_none());
}

#[test]
fn switching_reads_the_login_check() {
    assert_eq!(checked_login_uid(&parse(r#"{"data":{"uid":42}}"#)), "42");
    assert_eq!(checked_login_uid(&parse(r#"{"id":"7"}"#)), "7");
    let (name, avatar) = switched_account_profile(
        &parse(r#"{"data":{"username":"新","avatar":"b.png"}}"#),
        &parse(r#"{"username":"旧","userAvatar":"a.png"}"#),
    );
    assert_eq!((name.as_str(), avatar.as_str()), ("新", "b.png"));
    let (name, avatar) = switched_account_profile(&parse(r#"{"data":{}}"#), &parse(r#"{"username":"旧"}"#));
    assert_eq!((name.as_str(), avatar.as_str()), ("旧", ""));
}
