use coolapk::agent::parse_reply_user_agent;
use coolapk::cookie::{
    cookie_for_request, cookie_without_ddid, encode_login_cookie_value, has_valid_session_cookie,
    merge_cookie_value, remove_cookie_values,
};
use coolapk::device::{decode_device_code, generate_device_code_with_szlm, is_valid_device_code};
use coolapk::html::extract_readable_content;
use coolapk::image::{build_oss_image_url, image_resolution};
use coolapk::paths::classify_path;
use coolapk::query::{
    build_collection_list_query, build_create_feed_form, build_create_feed_form_for_type,
    build_product_feeds_query, build_product_rating_list_query, build_product_rating_query,
    build_secondhand_product_list_query, rank_feed_url, reply_target_params,
};
use coolapk::url::{is_allowed_user_page_url, is_safe_discovery_page_url};

fn decode(code: &str) -> String {
    decode_device_code(code).expect("设备码应为合法 Base64 与 UTF-8")
}

fn is_header_value(code: &str) -> bool {
    code.bytes().all(|b| b == b'\t' || (0x20..0x7f).contains(&b))
}

#[test]
fn accepts_server_page_routes() {
    assert!(is_safe_discovery_page_url("V11_FIND_COOLPIC"));
    assert!(is_safe_discovery_page_url("#/feed/digestList?page=1"));
    assert!(is_safe_discovery_page_url("/page?url=/product/feedList"));
}

#[test]
fn rejects_external_and_script_urls() {
    assert!(!is_safe_discovery_page_url("https://example.com"));
    assert!(!is_safe_discovery_page_url("javascript:alert(1)"));
    assert!(!is_safe_discovery_page_url("file:///C:/secret"));
    assert!(!is_safe_discovery_page_url("bad\nroute"));
}

#[test]
fn ddi_paths_match_server_config() {
    assert!(classify_path("/v6/feed/like").needs_ddid);
    assert!(classify_path("/v6/feed/likeReply").needs_ddid);
    assert!(!classify_path("/v6/feed/followTag").needs_ddid);
    assert!(!classify_path("/v6/feed/unFollowTag").needs_ddid);
}

#[test]
fn test_classify_path_detects_requirements() {
    assert!(classify_path("/v6/feed/like").needs_ddid);
    assert!(!classify_path("/v6/feed/unlike").needs_ddid);
    assert!(classify_path("/v6/feed/likeReply").needs_ddid);
    assert!(classify_path("/v6/message/send").needs_ddid);
    assert!(classify_path("/v6/feed/createFeed").needs_post_token);
    assert!(classify_path("/v6/feed/reply").needs_post_token);
    assert!(classify_path("/v6/feed/createFeed").needs_ddid);
    assert!(!classify_path("/v6/main/indexV8").needs_ddid);
    assert!(!classify_path("/v6/feed/detail").needs_post_token);
    assert!(classify_path("/v6/feed/like?id=123").needs_ddid);
}

#[test]
fn test_ddid_is_not_sent_when_disabled() {
    let cookie = "SESSID=session; uid=123; ddid=stale-ddid; sid=other";
    assert_eq!(cookie_without_ddid(cookie), "SESSID=session; uid=123; sid=other");
    assert!(!cookie_for_request(cookie, true).contains("ddid="));
}

#[test]
fn test_login_info_cookie_matches_official_cookie_interceptor() {
    assert_eq!(encode_login_cookie_value("name with space"), "name+with+space");
    assert_eq!(encode_login_cookie_value("中文"), "%E4%B8%AD%E6%96%87");
    let cookie = remove_cookie_values(
        "SESSID=session; uid=old; username=old-user; token=old-token",
        &["uid", "username", "token"],
    );
    assert_eq!(cookie, "SESSID=session");
    let cookie = merge_cookie_value(&cookie, "uid", "123");
    let cookie = merge_cookie_value(&cookie, "username", "cool+user");
    let cookie = merge_cookie_value(&cookie, "token", "new-token");
    assert_eq!(cookie, "SESSID=session; uid=123; username=cool+user; token=new-token");
}

#[test]
fn test_product_rating_query_matches_apk_contract() {
    assert_eq!(
        build_product_rating_query("2967", 5),
        vec![("id", "2967".to_string()), ("value", "5".to_string())]
    );
    assert_eq!(
        build_product_rating_query("2967", 0),
        vec![("id", "2967".to_string()), ("value", "0".to_string())]
    );
}

#[test]
fn test_product_rating_list_query_matches_apk_contract() {
    assert_eq!(
        build_product_rating_list_query("5573", 0, 0, 0),
        vec![
            ("url", "/feed/nodeRatingList".to_string()),
            ("targetType", "7".to_string()),
            ("targetId", "5573".to_string()),
            ("ratingType", "all".to_string()),
            ("isOwner", "0".to_string()),
            ("page", "1".to_string()),
        ]
    );
    assert_eq!(
        build_product_rating_list_query("5573", 5, 1, 2).last(),
        Some(&("star", "5".to_string()))
    );
}

#[test]
fn test_secondhand_product_list_query_matches_apk_contract() {
    assert_eq!(
        build_secondhand_product_list_query("1016", "recommend", 0, "", ""),
        vec![
            ("id", "1016".to_string()),
            ("listType", "recommend".to_string()),
            ("page", "1".to_string()),
        ]
    );
    assert_eq!(
        build_secondhand_product_list_query("1016", "recommend", 2, "first", "last"),
        vec![
            ("id", "1016".to_string()),
            ("listType", "recommend".to_string()),
            ("page", "2".to_string()),
            ("firstItem", "first".to_string()),
            ("lastItem", "last".to_string()),
        ]
    );
}

#[test]
fn test_collection_list_query_includes_default_collection() {
    assert_eq!(
        build_collection_list_query("12345", 1),
        vec![
            ("uid", "12345".to_string()),
            ("showDefault", "1".to_string()),
            ("page", "1".to_string()),
        ]
    );
}

#[test]
fn test_product_feeds_query_includes_sort_only_when_selected() {
    assert_eq!(
        build_product_feeds_query("5573", "feed", "", 1),
        vec![
            ("url", "/page?url=/product/feedList".to_string()),
            ("id", "5573".to_string()),
            ("type", "feed".to_string()),
            ("page", "1".to_string()),
        ]
    );
    assert_eq!(
        build_product_feeds_query("5573", "feed", " rank_score ", 1),
        vec![
            ("url", "/page?url=/product/feedList".to_string()),
            ("id", "5573".to_string()),
            ("type", "feed".to_string()),
            ("listType", "rank_score".to_string()),
            ("page", "1".to_string()),
        ]
    );
}

#[test]
fn test_oss_image_url_uses_prepare_prefix_and_file_name() {
    let url = build_oss_image_url("https://image.coolapk.com/", "/feed/2026/08/23/test.png")
        .expect("应生成图片地址");
    assert_eq!(url, "https://image.coolapk.com/feed/2026/08/23/test.png");
    assert!(build_oss_image_url("image.coolapk.com", "feed/test.png").is_none());
}

#[test]
fn test_image_resolution_reads_png_dimensions() {
    let mut png_header = vec![
        0x89, 0x50, 0x4e, 0x47, 0x0d, 0x0a, 0x1a, 0x0a, 0, 0, 0, 0, b'I', b'H', b'D', b'R', 0, 0,
        0x04, 0x38, 0, 0, 0x08, 0x70,
    ];
    assert_eq!(image_resolution(&png_header), "1080x2160");
    png_header[16..20].copy_from_slice(&1u32.to_be_bytes());
    png_header[20..24].copy_from_slice(&1u32.to_be_bytes());
    assert_eq!(image_resolution(&png_header), "1x1");
}

#[test]
fn test_reply_target_uses_comment_id_and_reply_type() {
    assert_eq!(
        reply_target_params("73356707", Some(" 601858220 ")),
        ("601858220".to_string(), "reply".to_string())
    );
    assert_eq!(
        reply_target_params("73356707", None),
        ("73356707".to_string(), "feed".to_string())
    );
}

#[test]
fn test_create_feed_form_includes_pic_and_publish_state() {
    let form = build_create_feed_form("测试", Some("http://image.coolapk.com/feed/test@0x0.png"), None);
    let value = |key: &str| form.iter().find(|(name, _)| *name == key).map(|(_, value)| value.as_str());
    assert_eq!(value("pic"), Some("http://image.coolapk.com/feed/test@0x0.png"));
    assert_eq!(value("status"), Some("1"));
    assert_eq!(value("publish_status"), Some("0"));
    assert_eq!(value("is_html_article"), Some("0"));
}

#[test]
fn test_create_answer_form_uses_answer_type_and_question_fid() {
    let form = build_create_feed_form_for_type("回答内容", None, None, "answer", "question-42");
    let value = |key: &str| form.iter().find(|(name, _)| *name == key).map(|(_, value)| value.as_str());
    assert_eq!(value("type"), Some("answer"));
    assert_eq!(value("fid"), Some("question-42"));
    assert_eq!(value("message"), Some("回答内容"));
}

#[test]
fn test_hot_rank_routes_use_statistics_api() {
    assert_eq!(rank_feed_url("month"), Some("#/feed/statList?statType=30days&sortField=likenum"));
    assert_eq!(rank_feed_url("favorite"), Some("#/feed/statList?statType=7days&sortField=favnum"));
    assert_eq!(rank_feed_url("index"), Some("#/feed/statList?statType=7days&sortField=detailnum"));
    assert_eq!(rank_feed_url("unknown"), None);
}

#[test]
fn test_user_page_data_url_allowlist() {
    assert!(is_allowed_user_page_url("#/feed/userCoolPictureFeedList?fragmentTemplate=flex"));
    assert!(is_allowed_user_page_url(
        "#/feed/nodeRatingList?uid=123&targetType=all&parseRatingToFeed=1"
    ));
    assert!(is_allowed_user_page_url("#/feed/userDeleteFeedList"));
    assert!(!is_allowed_user_page_url("https://example.com/anything"));
    assert!(!is_allowed_user_page_url(
        "#/feed/userCoolPictureFeedList?fragmentTemplate=flex&proxy=https://example.com"
    ));
}

#[test]
fn test_szlm_device_code_is_stable_and_embeds_id() {
    let szlm = "b1f8a0c2d3e4f5a6b7c8d9e0f1a2b3c4";
    let a = generate_device_code_with_szlm(szlm);
    let b = generate_device_code_with_szlm(szlm);
    assert_eq!(a, b, "同一数字联盟ID必须生成相同设备码（Token V3 与设备码绑定）");
    assert_ne!(
        a,
        generate_device_code_with_szlm("ffffffffffffffffffffffffffffffff"),
        "不同数字联盟ID应生成不同设备码"
    );
    assert!(is_valid_device_code(&a), "设备码必须符合官方规范格式");
    assert!(is_header_value(&a), "设备码必须是合法 HTTP header 值");
    let decoded = decode(&a);
    assert!(
        decoded.starts_with(&format!("{szlm}; ; ; ")),
        "设备码首字段应为数字联盟ID，实际为: {decoded}"
    );
    assert!(decoded.ends_with("; null"), "设备码应以 null 结尾");
}

#[test]
fn test_account_cookie_requires_real_sessid() {
    assert!(has_valid_session_cookie("SESSID=valid-session; uid=12345; username=test"));
    assert!(!has_valid_session_cookie("uid=12345; username=test; token=only-token"));
    assert!(!has_valid_session_cookie("SESSID=deleted; uid=12345"));
    assert!(!has_valid_session_cookie("SESSID=expired; uid=12345"));
}

#[test]
fn test_parse_reply_user_agent_keeps_real_device_metadata() {
    let user_agent = "Dalvik/2.1.0 (Linux; U; Android 16; 2210132C Build/BP2A.250605.031.A3) (#Build; Xiaomi; 2210132C; BP2A.250605.031.A3; HyperOS_3.0; 3.0.310.0) +CoolMarket/16.5.1";
    let (device_title, device_build, device_rom) = parse_reply_user_agent(user_agent);
    assert_eq!(device_title, "Xiaomi 2210132C");
    assert_eq!(device_build, "BP2A.250605.031.A3");
    assert_eq!(device_rom, "Android 16 · HyperOS 3.0.310.0");
}

#[test]
fn test_extract_readable_content_strips_chrome() {
    let html = r#"<!DOCTYPE html>
<html><head><title>动态分享 - 酷安</title></head>
<body>
<header><a href="/">酷安</a><a href="/editorChoice">编辑精选</a></header>
<nav><a href="/apk/">应用</a><a href="/game/">游戏</a><a href="/u/1451266">oxygen的喵</a></nav>
<div>您当前查看的是「动态分享」，请用酷安手机APP扫码查看详情<br>下载酷安手机APP</div>
<article>
<p>在家用 Windows 刷酷安的新方式——</p>
<a href="/t/数码日常">#数码日常#</a>
</article>
<footer><a href="/about/contact.html">联系酷安</a><span>粤ICP备15030494号</span></footer>
<script>alert(1)</script>
</body></html>"#;
    let cleaned = extract_readable_content(html);
    assert!(cleaned.contains("在家用 Windows 刷酷安"), "正文应保留");
    assert!(cleaned.contains("#数码日常#"), "正文链接应保留");
    assert!(!cleaned.contains("编辑精选"), "导航不应残留");
    assert!(!cleaned.contains("oxygen的喵"), "导航用户链接不应残留");
    assert!(!cleaned.contains("粤ICP备"), "页脚不应残留");
    assert!(!cleaned.contains("alert"), "脚本不应残留");
    assert!(!cleaned.contains("<script"), "script 标签不应残留");
}

#[test]
fn test_extract_readable_content_fallback_safe() {
    let html = r#"<html><body><nav>导航</nav><div><br/><img src="a.png">正文内容</div><footer>页脚</footer></body></html>"#;
    let cleaned = extract_readable_content(html);
    assert!(cleaned.contains("正文内容"));
    assert!(!cleaned.contains("导航"));
    assert!(!cleaned.contains("页脚"));
    let broken = "<article>无闭合正文...<div>内容";
    let out = extract_readable_content(broken);
    assert!(out.contains("无闭合正文"));
}
