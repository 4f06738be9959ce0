use coolapk::api::{wrap_api_data, ApiError};
use coolapk::device::{device_code_for_seed, is_valid_device_code};
use coolapk::downloads::{
    build_coolapk_download_url, download_object_string, empty_download_verification,
    DownloadUrlError,
};
use coolapk::feed::clean_single_feed;
use coolapk::json::{Json, JsonNumber};
use coolapk::lists::{
    extract_history_list, extract_product_entity_list, extract_user_list,
    parse_discovery_request_args, product_entity_page_response, wrap_page_data_response,
    wrap_user_list_result,
};
use coolapk::media::extract_live_photo_video_url;
use coolapk::search::{extract_entity_rows, is_sponsor_search_entity, wrap_sanitized_search_data};
use serde_json::Value;

fn to_json(v: &Value) -> Json {
    match v {
        Value::Null => Json::Null,
        Value::Bool(b) => Json::Bool(*b),
        Value::Number(n) => Json::Number(match (n.as_u64(), n.as_i64()) {
            (Some(u), _) => JsonNumber::PosInt(u),
            (None, Some(i)) => JsonNumber::NegInt(i),
            _ => JsonNumber::Float(n.to_string()),
        }),
        Value::String(s) => Json::Str(s.clone()),
        Value::Array(a) => Json::Array(a.iter().map(to_json).collect()),
        Value::Object(m) => Json::Object(m.iter().map(|(k, v)| (k.clone(), to_json(v))).collect()),
    }
}

fn from_json(j: &Json) -> Value {
    match j {
        Json::Null => Value::Null,
        Json::Bool(b) => Value::Bool(*b),
        Json::Number(JsonNumber::PosInt(u)) => Value::from(*u),
        Json::Number(JsonNumber::NegInt(i)) => Value::from(*i),
        Json::Number(JsonNumber::Float(t)) => serde_json::from_str(t).unwrap_or(Value::Null),
        Json::Str(s) => Value::String(s.clone()),
        Json::Array(a) => Value::Array(a.iter().map(from_json).collect()),
        Json::Object(f) => {
            let mut m = serde_json::Map::new();
            for (k, v) in f {
                m.insert(k.clone(), from_json(v));
            }
            Value::Object(m)
        }
    }
}

fn parse(text: &str) -> Json {
    let v: Value = serde_json::from_str(text).expect("fixture is JSON");
    to_json(&v)
}

fn clean(text: &str, idx: u64) -> Option<Value> {
    clean_single_feed(&parse(text), idx, 0).map(|j| from_json(&j))
}

#[test]
fn test_search_response_filters_sponsor_entities_recursively() {
    let raw = parse(
        r#"{"data":[{"entities":[
            {"entityType":"feed","id":"1","message":"正常动态"},
            {"entityTemplate":"sponsorForSearch","sponsorType":"apk","id":"2"},
            {"entityType":"entityCard","entities":[{"entityType":"sponsorForSearch","id":"3"}]}
        ]}]}"#,
    );
    let filtered = wrap_sanitized_search_data(&raw);
    let json = from_json(&filtered).to_string();
    assert!(json.contains("正常动态"));
    assert!(!json.contains("sponsorForSearch"));
    assert!(!json.contains("sponsorType"));
}

#[test]
fn test_feed_cleaner_preserves_live_photo_metadata() {
    let cleaned = clean(
        r#"{
            "id": "live-feed-1",
            "entityType": "feed",
            "username": "测试用户",
            "message": "实况图",
            "imageUriList": [{
                "sourceUrl": "https://image.coolapk.com/feed/livepic@1080x1920.jpg",
                "compressedUrl": "https://image.coolapk.com/feed/livepic-cover.jpg",
                "liveVideoUrl": "https://video.coolapk.com/live/1.mp4",
                "livePhotoEnable": 1,
                "livePhotoSoundEnable": 0
            }]
        }"#,
        0,
    )
    .expect("feed should be kept");
    assert_eq!(cleaned["pics"][0], "https://image.coolapk.com/feed/livepic@1080x1920.jpg");
    assert_eq!(cleaned["imageUriList"][0]["liveVideoUrl"], "https://video.coolapk.com/live/1.mp4");
    assert_eq!(cleaned["imageUriList"][0]["livePhotoEnable"], 1);
}

#[test]
fn test_live_photo_response_extracts_nested_url_list() {
    let response = parse(
        r#"{"code":200,"data":{"urlList":["not-a-url","https://video.coolapk.com/live/123.mp4"]}}"#,
    );
    assert_eq!(
        extract_live_photo_video_url(&response),
        Some("https://video.coolapk.com/live/123.mp4".to_string())
    );
}

#[test]
fn test_clean_feed_keeps_edit_metadata() {
    let cleaned = clean(
        r#"{"id":123,"uid":456,"username":"测试用户","message":"测试正文","isModified":1,"change_count":2,"last_change_time":1786000100}"#,
        0,
    )
    .expect("动态应能正常清洗");
    assert_eq!(cleaned["isModified"], 1);
    assert_eq!(cleaned["changeCount"], 2);
    assert_eq!(cleaned["lastChangeTime"], 1_786_000_100_u64);
}

#[test]
fn test_clean_feed_preserves_cloud_collection_state() {
    let cleaned = clean(
        r#"{"id":123,"uid":456,"username":"测试用户","message":"测试正文","userAction":{"collect":1,"like":0}}"#,
        0,
    )
    .expect("动态应能正常清洗");
    assert_eq!(cleaned["userAction"]["collect"], 1);
    assert_eq!(cleaned["userAction"]["like"], 0);
}

#[test]
fn test_clean_rating_feed_preserves_apk_rating_fields() {
    let cleaned = clean(
        r#"{
            "id": 123,
            "uid": 456,
            "username": "点评用户",
            "type": "rating",
            "message": "点评摘要",
            "v4_rating_message": "{\"性能\":\"性能评语\",\"续航\":\"续航评语\"}",
            "rating_score": 8,
            "rating_score_1": 9,
            "rating_item_info": [{"id": 1, "name": "续航", "star": 4, "starDesc": "不错"}],
            "filter_rating": 1,
            "comment_addition": "对象内容",
            "comment_good": "优点内容",
            "comment_general": "一般内容",
            "comment_bad": "缺点内容",
            "is_owner": 1,
            "target_row": {"id": 789, "title": "测试手机"}
        }"#,
        0,
    )
    .expect("只有点评字段的动态也应能正常清洗");
    assert_eq!(cleaned["feedType"], "rating");
    assert_eq!(cleaned["type"], "rating");
    assert_eq!(cleaned["message"], "点评摘要");
    assert_eq!(cleaned["ratingScore"], 8);
    assert_eq!(cleaned["ratingScore1"], 9);
    assert_eq!(cleaned["ratingItemInfo"][0]["name"], "续航");
    assert_eq!(cleaned["filterRating"], 1);
    assert_eq!(cleaned["commentAddition"], "对象内容");
    assert_eq!(cleaned["commentGood"], "优点内容");
    assert_eq!(cleaned["commentGeneral"], "一般内容");
    assert_eq!(cleaned["commentBad"], "缺点内容");
    assert_eq!(cleaned["isOwner"], 1);
    assert_eq!(cleaned["targetRow"]["title"], "测试手机");
}

#[test]
fn test_clean_feed_preserves_relation_and_video_fields() {
    let cleaned = clean(
        r#"{
            "id": 123,
            "uid": 456,
            "username": "测试用户",
            "target_row": {"id": 2967, "title": "黑神话：钟馗", "entityType": "game"},
            "relation_rows": [{"id": 2967, "title": "黑神话：钟馗"}],
            "extraRows": [{"id": 789, "title": "关联扩展卡片"}],
            "productRows": [{"id": 999, "title": "关联产品"}],
            "video_url": "https://example.com/video.mp4",
            "video_pic": "https://example.com/video.jpg",
            "video_duration": 900,
            "media_url": "https://video.example.com/media.mp4",
            "media_pic": "https://video.example.com/media.jpg",
            "media_info": "{\"mediaType\":\"video\",\"duration\":952183}",
            "media_type": "2",
            "feedType": "video",
            "feedTypeName": "视频"
        }"#,
        0,
    )
    .expect("带视频和关联标的的动态应能正常清洗");
    assert_eq!(cleaned["targetRow"]["id"], 2967);
    assert_eq!(cleaned["relationRows"][0]["title"], "黑神话：钟馗");
    assert_eq!(cleaned["extraRows"][0]["title"], "关联扩展卡片");
    assert_eq!(cleaned["productRows"][0]["title"], "关联产品");
    assert_eq!(cleaned["videoUrl"], "https://example.com/video.mp4");
    assert_eq!(cleaned["videoPic"], "https://example.com/video.jpg");
    assert_eq!(cleaned["videoDuration"], 900);
    assert_eq!(cleaned["mediaUrl"], "https://video.example.com/media.mp4");
    assert_eq!(cleaned["mediaPic"], "https://video.example.com/media.jpg");
    assert_eq!(cleaned["mediaInfo"], "{\"mediaType\":\"video\",\"duration\":952183}");
    assert_eq!(cleaned["mediaType"], "2");
    assert_eq!(cleaned["feedType"], "video");
}

#[test]
fn test_clean_answer_keeps_parent_question_id() {
    let cleaned = clean(
        r#"{"id":123,"uid":456,"username":"回答用户","feedType":"answer","fid":789,"message":"回答正文"}"#,
        0,
    )
    .expect("回答动态应能正常清洗");
    assert_eq!(cleaned["feedType"], "answer");
    assert_eq!(cleaned["questionId"], 789);
}

#[test]
fn test_clean_feed_keeps_video_or_relation_only_items() {
    assert!(clean(
        r#"{"id":123,"uid":456,"username":"视频用户","videoUrl":"https://example.com/video.mp4"}"#,
        0
    )
    .is_some());
    assert!(clean(
        r#"{"id":124,"uid":456,"username":"关联用户","relationRows":[{"id":2967,"title":"黑神话：钟馗"}]}"#,
        1
    )
    .is_some());
}

#[test]
fn test_user_entity_rows_preserve_unknown_templates() {
    let raw = parse(
        r#"{"data":[
            {"entityType":"future_template","entityTemplate":"server_v99","title":"服务端新卡片","unknownField":{"keep":true}},
            {"entityType":"card","entities":[{"entityType":"apk","id":7,"title":"应用"}]}
        ]}"#,
    );
    let rows: Vec<Value> = extract_entity_rows(&raw).iter().map(from_json).collect();
    assert_eq!(rows.len(), 2);
    assert_eq!(rows[0]["entityTemplate"], "server_v99");
    assert_eq!(rows[0]["unknownField"]["keep"], true);
    assert_eq!(rows[1]["id"], 7);
}

#[test]
fn test_device_code_is_random() {
    let now = std::time::SystemTime::now()
        .duration_since(std::time::UNIX_EPOCH)
        .map(|d| d.as_nanos() as u64)
        .unwrap_or(1);
    let a = device_code_for_seed(now);
    let b = device_code_for_seed(now ^ 0x9E37_79B9_7F4A_7C15);
    assert_ne!(a, b, "两次生成的设备码不应相同");
    assert!(a.len() >= 60, "设备码应有足够长度");
    assert!(is_valid_device_code(&a), "生成的设备码必须符合官方规范格式");
    assert!(a.bytes().all(|b| (0x20..0x7f).contains(&b)), "设备码必须是合法 HTTP header 值");
}

#[test]
fn test_extract_history_list_preserves_entities() {
    let raw = parse(
        r#"{"data":[
            {"title":"oxygen","description":"","logo":"http://avatar.coolapk.com/data/001/45/12/66_avatar_middle.jpg","url":"u/1451266","historyType":"user","typeName":"用户","id":"user:1451266","entityType":"history","dateline":1786022084},
            {"id":247872765,"uid":1451266,"target_type":"apk","entityType":"recentHistory","entityId":247872765,"target_type_title":"应用","title":"哔哩哔哩","url":"/apk/tv.danmaku.bili","logo":"//pp.myapp.com/ma_icon/0/icon/256","follow_num":25289}
        ]}"#,
    );
    let list: Vec<Value> = extract_history_list(&raw).iter().map(from_json).collect();
    assert_eq!(list.len(), 2, "历史实体不能被丢弃");
    let history = &list[0];
    assert_eq!(history["entityType"], "history");
    assert_eq!(history["url"], "/u/1451266", "url 应补全前导斜杠");
    assert_eq!(
        history["logo"], "https://avatar.coolapk.com/data/001/45/12/66_avatar_middle.jpg",
        "http 图片应升级为 https"
    );
    let recent = &list[1];
    assert_eq!(recent["entityType"], "recentHistory");
    assert_eq!(recent["url"], "/apk/tv.danmaku.bili", "已有前导斜杠的 url 不应被改动");
    assert_eq!(recent["logo"], "https://pp.myapp.com/ma_icon/0/icon/256", "// 开头图片应补全 https");
}

#[test]
fn test_extract_product_entity_list_preserves_brands() {
    let raw = parse(
        r#"{"code":200,"data":[
            {"id":1,"title":"Apple","logo":"http://image.coolapk.com/logo/apple.png","product_num":120,"entityType":"brand"},
            {"entityId":2,"name":"华为","pic":"//image.coolapk.com/logo/huawei.png","series_num":88,"entityType":"brand"},
            {"entityTemplate":"productGroupTitle","title":"Mate 系列"},
            {"entityTemplate":"productGroupMore","title":"查看更多","url":"/product/more"},
            {"entityType":"header","title":"热门品牌"}
        ]}"#,
    );
    let list: Vec<Value> = extract_product_entity_list(&raw).iter().map(from_json).collect();
    assert_eq!(list.len(), 4, "品牌实体和产品组结构卡不能被丢弃，普通占位应被过滤");
    assert_eq!(list[0]["title"], "Apple");
    assert_eq!(list[0]["product_num"], 120);
    assert_eq!(list[1]["name"], "华为");
    assert_eq!(list[1]["series_num"], 88);
    assert_eq!(list[2]["entityTemplate"], "productGroupTitle");
    assert_eq!(list[3]["entityTemplate"], "productGroupMore");
}

#[test]
fn test_interaction_response_preserves_user_only_rows() {
    let raw = parse(r#"{"code":200,"data":[{"uid":"10086","username":"点赞用户"}]}"#);
    let wrapped = match wrap_api_data(raw) {
        Ok(w) => from_json(&w),
        Err(_) => panic!("互动列表响应应能正常包装"),
    };
    assert_eq!(wrapped["data"][0]["uid"], "10086");
    assert_eq!(wrapped["data"][0]["username"], "点赞用户");
}

#[test]
fn test_extract_product_entity_list_flattens_nested_entities() {
    let raw = parse(
        r#"{"code":200,"data":[{"title":"分类组","entities":[{"id":"c1","title":"手机"},{"entities":[{"id":"c2","title":"平板"}]}]}]}"#,
    );
    let list: Vec<Value> = extract_product_entity_list(&raw).iter().map(from_json).collect();
    assert_eq!(list.len(), 2, "嵌套 entities 应被摊平");
    assert_eq!(list[0]["id"], "c1");
    assert_eq!(list[1]["id"], "c2");
}

#[test]
fn test_discovery_request_args_filters_reserved_and_unsafe_values() {
    let args = parse_discovery_request_args(
        r#"{"type":"phone","sort":"hot","page":99,"bad key":"x","nested":{"mode":"new"},"empty":null,"line":"a\n b"}"#,
    );
    assert_eq!(args.len(), 3);
    assert!(args.contains(&("type".to_string(), "phone".to_string())));
    assert!(args.contains(&("sort".to_string(), "hot".to_string())));
    assert!(args.contains(&("nested".to_string(), r#"{"mode":"new"}"#.to_string())));
    assert!(!args
        .iter()
        .any(|(key, _)| key == "page" || key == "bad key" || key == "empty" || key == "line"));
}

#[test]
fn test_product_entity_page_response_keeps_pagination_metadata() {
    let raw = parse(
        r#"{"data":[{"id":1,"title":"手机","entityType":"product"}],"firstItem":"1","lastItem":"1","hasMore":true,"total":42,"pagination":{"current":1}}"#,
    );
    let response = from_json(&product_entity_page_response(&raw));
    assert_eq!(response["data"].as_array().map(|items| items.len()), Some(1));
    assert_eq!(response["firstItem"], "1");
    assert_eq!(response["lastItem"], "1");
    assert_eq!(response["hasMore"], true);
    assert_eq!(response["total"], 42);
    assert_eq!(response["pagination"]["current"], 1);
}

#[test]
fn official_download_url_uses_the_v6_download_endpoint_and_required_fields() {
    let text = match build_coolapk_download_url("com.demo.app", "943417", "275") {
        Ok(u) => u,
        Err(_) => panic!("download url"),
    };
    let url = reqwest::Url::parse(&text).expect("a URL");
    assert_eq!(url.scheme(), "https");
    assert_eq!(url.host_str(), Some("api.coolapk.com"));
    assert_eq!(url.path(), "/v6/apk/download");
    assert_eq!(url.query(), Some("pn=com.demo.app&aid=943417&vc=275&extra="));
}

#[test]
fn app_detail_version_accepts_coolapk_apkversioncode_field() {
    let detail = parse(r#"{"apkversioncode":7245864}"#);
    assert_eq!(
        download_object_string(Some(&detail), &["versionCode", "versioncode", "version_code", "apkversioncode"]),
        Some("7245864".to_string())
    );
}

#[test]
fn download_verification_only_rejects_an_explicit_empty_result() {
    assert!(empty_download_verification(&parse(r#"{"data":""}"#)));
    assert!(!empty_download_verification(&parse(r#"{"data":"verified"}"#)));
    assert!(!empty_download_verification(&parse(r#"{"data":{"ok":true}}"#)));
}

#[test]
fn download_url_requires_every_field() {
    assert!(matches!(build_coolapk_download_url(" ", "1", "2"), Err(DownloadUrlError::Incomplete)));
    assert!(matches!(build_coolapk_download_url("a", "", "2"), Err(DownloadUrlError::Incomplete)));
    assert_eq!(DownloadUrlError::Incomplete.message(), "应用下载参数不完整，缺少包名、应用 ID 或版本号");
    let trimmed = build_coolapk_download_url(" com.a ", " 1 ", " 2 ").ok().expect("trimmed fields");
    assert!(trimmed.ends_with("?pn=com.a&aid=1&vc=2&extra="));
}

#[test]
fn sponsored_entries_are_recognised_by_type_template_or_flag() {
    assert!(is_sponsor_search_entity(&parse(r#"{"entity_type":" SponsorCard "}"#)));
    assert!(is_sponsor_search_entity(&parse(r#"{"sponsorType":1}"#)));
    assert!(!is_sponsor_search_entity(&parse(r#"{"sponsorType":0}"#)));
    assert!(!is_sponsor_search_entity(&parse(r#"{"sponsorType":"  "}"#)));
    assert!(!is_sponsor_search_entity(&parse(r#"["sponsor"]"#)));
}

#[test]
fn search_answer_without_data_gets_an_empty_list() {
    let wrapped = from_json(&wrap_sanitized_search_data(&parse(r#"{"code":0,"extra":1}"#)));
    assert_eq!(wrapped["code"], 200);
    assert_eq!(wrapped["extra"], 1);
    assert_eq!(wrapped["data"], Value::Array(Vec::new()));
}

#[test]
fn page_data_answer_keeps_paging_fields_it_lacks() {
    let raw = parse(r#"{"data":[1,2],"lastItem":"9","hasMore":false,"other":3}"#);
    let wrapped = match wrap_page_data_response(raw) {
        Ok(w) => from_json(&w),
        Err(_) => panic!("a page"),
    };
    assert_eq!(wrapped["code"], 200);
    assert_eq!(wrapped["lastItem"], "9");
    assert_eq!(wrapped["hasMore"], false);
    assert!(wrapped.get("other").is_none());
    let refused = wrap_page_data_response(parse(r#"{"error":"busy"}"#));
    assert!(matches!(refused, Err(ApiError::Message(m)) if m == "busy"));
}

#[test]
fn user_list_is_flattened_and_refusals_use_the_message() {
    let raw = parse(r#"{"data":[{"uid":"1"},{"entities":[{"uid":"2"},{"uid":"3"}]}]}"#);
    assert_eq!(extract_user_list(&raw).len(), 3);
    let refused = wrap_user_list_result(&parse(r#"{"status":-1,"error":"没有权限"}"#), "获取失败");
    assert_eq!(refused.err(), Some("没有权限".to_string()));
    let fallback = wrap_user_list_result(&parse(r#"{"status":-2}"#), "获取失败");
    assert_eq!(fallback.err(), Some("获取失败".to_string()));
}

