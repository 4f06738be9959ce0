use coolapk::accounts::{account_device_code, guest_device_code, restored_cookie, save_account_to, default_accounts_root};
use coolapk::api::{like_answer, ApiError};
use coolapk::apk::{app_list_page_url, app_list_search_word, app_search_page_query, game_list_search_word};
use coolapk::collections::{collection_list_page, search_query};
use coolapk::device::{generate_device_code_for_id, is_valid_device_code, DeviceProfile};
use coolapk::feedlist::{
    cleaned_list_answer, discovery_page_query, extract_cleaned_list, extract_topic_sort_options,
    extract_topic_tab_list, feed_chain_step, feed_detail_failure, node_feed_query, topic_feeds_page_query,
    topic_feeds_result, topic_tab_page_query, topic_tab_result,
};
use coolapk::forms::{product_album_form, user_vote_form, VoteError};
use coolapk::json::{Json, JsonNumber};
use coolapk::login::{
    access_code_login_session, access_token_grant, account_login_form, check_session_cookie, checked_login_info,
    granted_account_cookie, home_tab_config_result, is_password_login_refused, login_identity_of,
    login_status_result, login_status_uid_of, session_cookie_of, webview_login_cookie, LoginError, SessionError,
};
use coolapk::relations::relation_user_list;
use coolapk::replies::reply_detail_answer;
use coolapk::requests::{
    api_request_cookie, api_request_url, created_entity_id, delete_action_url, device_request_headers,
    download_request_headers, private_message_url, szlm_probe_verdict, MessageError,
};
use coolapk::search::user_search_result;
use coolapk::topic::{
    followed_topics_page_query, followed_topics_result, hot_topics_result, sort_by_followers, topic_hub_route,
    TopicRoute,
};
use coolapk::usertab::{user_tab_source_of, UserTabSource};
use coolapk::update::{update_after_chunk, update_announced_size, update_package_name, UpdateUrlError, UPDATE_MAX_BYTES};
use coolapk::downloads::{
    decode_extra_analysis_data, download_after_chunk, download_completed, download_expected_total,
    download_extra_data, download_response_check, resolve_download_ids, DownloadResponseError,
    APK_DOWNLOAD_MAX_BYTES,
};
use serde_json::Value;

fn to_json(v: &Value) -> Json {
    match v {
        Value::Null => Json::Null,
        Value::Bool(b) => Json::Bool(*b),
        Value::Number(n) => Json::Number(match (n.as_u64(), n.as_i64()) {
            (Some(u), _) => JsonNumber::PosInt(u),
            (None, Some(i)) => JsonNumber::NegInt(i),
            _ => JsonNumber::Float(n.to_string()),
        }),
        Value::String(s) => Json::Str(s.clone()),
        Value::Array(a) => Json::Array(a.iter().map(to_json).collect()),
        Value::Object(m) => Json::Object(m.iter().map(|(k, v)| (k.clone(), to_json(v))).collect()),
    }
}

fn from_json(j: &Json) -> Value {
    match j {
        Json::Null => Value::Null,
        Json::Bool(b) => Value::Bool(*b),
        Json::Number(JsonNumber::PosInt(u)) => Value::from(*u),
        Json::Number(JsonNumber::NegInt(i)) => Value::from(*i),
        Json::Number(JsonNumber::Float(t)) => serde_json::from_str(t).unwrap_or(Value::Null),
        Json::Str(s) => Value::String(s.clone()),
        Json::Array(a) => Value::Array(a.iter().map(from_json).collect()),
        Json::Object(f) => {
            let mut m = serde_json::Map::new();
            for (k, v) in f {
                m.insert(k.clone(), from_json(v));
            }
            Value::Object(m)
        }
    }
}

fn parse(text: &str) -> Json {
    let v: Value = serde_json::from_str(text).expect("fixture is JSON");
    to_json(&v)
}

fn val(text: &str) -> Value {
    serde_json::from_str(text).expect("expected value is JSON")
}

fn values(items: &[Json]) -> Vec<Value> {
    items.iter().map(from_json).collect()
}

fn pairs(q: &[(&'static str, String)]) -> Vec<(String, String)> {
    q.iter().map(|(k, v)| (k.to_string(), v.clone())).collect()
}

fn owned(q: &[(&str, &str)]) -> Vec<(String, String)> {
    q.iter().map(|(k, v)| (k.to_string(), v.to_string())).collect()
}

// ---------------------------------------------------------------------------
// Feed lists
// ---------------------------------------------------------------------------

#[test]
fn cleaned_list_keeps_feeds_and_the_feeds_inside_cards() {
    let raw = parse(
        r#"{"data":[
            {"entityType":"feed","id":"1","username":"a","message":"hi"},
            {"entityType":"card","entities":[{"entityType":"feed","id":"3","username":"b","message":"yo"},{"entityType":"card"}]},
            {"entityType":"feed","username":"c","message":"no id"}
        ]}"#,
    );
    let list = values(&extract_cleaned_list(&raw, 1700000000));
    let ids: Vec<&str> = list.iter().map(|v| v["id"].as_str().unwrap()).collect();
    assert_eq!(ids, vec!["1", "3", "feed_2_1700000000"]);
    assert_eq!(list[1]["username"], "b");
    assert!(extract_cleaned_list(&parse(r#"{"data":{"x":1}}"#), 0).is_empty());
}

#[test]
fn cleaned_list_answer_wraps_the_list() {
    let raw = parse(r#"{"data":[{"entityType":"feed","id":9,"username":"a","message":"m"}]}"#);
    let answer = from_json(&cleaned_list_answer(&raw, 5));
    assert_eq!(answer["code"], 200);
    assert_eq!(answer["data"][0]["id"], "9");
}

#[test]
fn feed_chain_keeps_the_first_non_empty_list() {
    let full = parse(r#"{"data":[{"entityType":"feed","id":"1","username":"a","message":"m"}]}"#);
    let empty = parse(r#"{"data":[]}"#);
    assert!(feed_chain_step(Some(&empty), false, 0).is_none());
    assert!(feed_chain_step(None, false, 0).is_none());
    assert!(feed_chain_step(None, true, 0).is_none());
    assert_eq!(feed_chain_step(Some(&empty), true, 0).map(|l| l.len()), Some(0));
    assert_eq!(feed_chain_step(Some(&full), false, 0).map(|l| l.len()), Some(1));
}

#[test]
fn topic_tab_rows_unwrap_cards_and_keep_showable_entities() {
    let raw = parse(
        r#"{"data":[
            {"entityType":"card","feed":{"entityType":"feed","id":"10","username":"u","message":"wrapped"}},
            {"entityType":"card","entities":[{"entityType":"feed","id":"11","username":"v","message":"child"},{"title":"T"}]},
            {"title":"x","pic":null},
            {"foo":1},
            {"entityType":"card","entities":[],"title":"empty card"}
        ]}"#,
    );
    let rows = values(&extract_topic_tab_list(&raw, 0));
    assert_eq!(rows.len(), 5);
    assert_eq!(rows[0]["id"], "10");
    assert_eq!(rows[1]["id"], "11");
    assert_eq!(rows[2], val(r#"{"title": "T"}"#));
    assert_eq!(rows[3]["title"], "x");
    assert_eq!(rows[4]["title"], "empty card");

    let nested = parse(r#"{"data":{"entities":[{"title":"only"}]}}"#);
    assert_eq!(values(&extract_topic_tab_list(&nested, 0)), vec![val(r#"{"title": "only"}"#)]);
}

#[test]
fn topic_sort_options_come_from_sort_cards_only() {
    let raw = parse(
        r#"{"data":[
            {"entityTemplate":"sortSelectCard","entities":[{"title":"Hot"},{"x":1}]},
            {"entityType":"sortSelectCard","entities":[{"title":"New"}]},
            {"entityTemplate":"other","entities":[{"title":"No"}]}
        ]}"#,
    );
    let options = values(&extract_topic_sort_options(&raw));
    assert_eq!(options, vec![val(r#"{"title": "Hot"}"#), val(r#"{"title": "New"}"#)]);
}

#[test]
fn topic_feeds_query_and_answer() {
    let q = pairs(&topic_feeds_page_query("酷安", 2, " ", "f1", "", -1));
    assert_eq!(q, owned(&[("tag", "酷安"), ("page", "2"), ("firstItem", "f1"), ("blockStatus", "-1")]));
    let raw = parse(
        r#"{"data":[{"entityType":"feed","id":"1","username":"a","message":"m"},{"entityTemplate":"sortSelectCard","entities":[{"title":"Hot"}]}]}"#,
    );
    let answer = from_json(&topic_feeds_result(&raw, 0));
    assert_eq!(answer["data"].as_array().map(|a| a.len()), Some(1));
    assert_eq!(answer["sortOptions"][0]["title"], "Hot");
}

#[test]
fn topic_tab_query_refuses_unsafe_addresses() {
    assert!(topic_tab_page_query("https://example.com", "", "", 1, "", "", "").is_none());
    let q = topic_tab_page_query("V11_FIND_COOLPIC", "图", " ", 0, "a", "b", "ctx").unwrap();
    assert_eq!(
        pairs(&q),
        owned(&[("url", "V11_FIND_COOLPIC"), ("page", "1"), ("title", "图"), ("firstItem", "a"), ("lastItem", "b"), ("pageContext", "ctx")])
    );
}

#[test]
fn topic_tab_answer_carries_cursors() {
    let raw = parse(r#"{"data":[{"title":"a","entityId":"7"},{"title":"b","id":"8"}]}"#);
    let answer = from_json(&topic_tab_result(&raw, 0));
    assert_eq!(answer["firstItem"], "7");
    assert_eq!(answer["lastItem"], "8");
    assert_eq!(answer["sortOptions"], val(r#"[]"#));
    let empty = from_json(&topic_tab_result(&parse(r#"{}"#), 0));
    assert_eq!(empty["firstItem"], "");
}

#[test]
fn node_feed_requests_by_node_type() {
    let (path, q) = node_feed_query("topic", "酷安", 3);
    assert_eq!(path, "/v6/topic/tagFeedList");
    assert_eq!(pairs(&q), owned(&[("tag", "酷安"), ("page", "3")]));
    let (path, q) = node_feed_query("app", "123", 1);
    assert_eq!(path, "/v6/page/dataList");
    assert_eq!(pairs(&q)[2], ("sort".to_string(), "lastupdate_desc".to_string()));
    let (_, q) = node_feed_query("dyh", "5", 1);
    assert_eq!(pairs(&q)[0].1, "#/feed/nodeFeedList?nodeType=dyh&nodeId=5");
}

#[test]
fn discovery_query_appends_request_args() {
    assert!(discovery_page_query("javascript:alert(1)", "", "", 1, "", "", "", "{}").is_none());
    let q = discovery_page_query("#/feed/digestList?page=1", "", "", 2, "", "", "", r#"{"type":"phone"}"#).unwrap();
    assert_eq!(q, owned(&[("url", "#/feed/digestList?page=1"), ("page", "2"), ("type", "phone")]));
}

#[test]
fn feed_detail_failure_lists_each_public_host() {
    let errors = vec![
        ("https://api.coolapk.com".to_string(), "e1".to_string()),
        ("https://api2.coolapk.com".to_string(), "e2".to_string()),
    ];
    assert_eq!(
        feed_detail_failure("p", &errors),
        "动态详情加载失败：p；游客接口：https://api.coolapk.com: e1；https://api2.coolapk.com: e2"
    );
}

// ---------------------------------------------------------------------------
// Topics, user tabs, relations, collections
// ---------------------------------------------------------------------------

#[test]
fn hot_topics_keep_at_most_five_titled_topics() {
    let mut items = Vec::new();
    items.push(r#"{"entityType":"feed","title":"not a topic"}"#.to_string());
    items.push(r#"{"entityType":"topic","title":""}"#.to_string());
    for i in 0..7 {
        items.push(format!(r#"{{"entityType":"topic","title":"t{i}","commentnum":{i}}}"#));
    }
    let raw = parse(&format!(r#"{{"data":[{}]}}"#, items.join(",")));
    let answer = from_json(&hot_topics_result(&raw));
    let data = answer["data"].as_array().unwrap();
    assert_eq!(data.len(), 5);
    assert_eq!(data[0], val(r#"{"count": 0, "tag": "t0"}"#));
    assert_eq!(data[4]["tag"], "t4");
}

#[test]
fn followed_topics_keep_the_server_envelope() {
    assert_eq!(
        pairs(&followed_topics_page_query(2))[3],
        ("page".to_string(), "2".to_string())
    );
    let answer = from_json(&followed_topics_result(&parse(r#"{"code":0,"data":[1]}"#)));
    assert_eq!(answer, val(r#"{"code": 0, "data": [1], "message": null}"#));
    let answer = from_json(&followed_topics_result(&parse(r#"{}"#)));
    assert_eq!(answer, val(r#"{"code": 200, "data": [], "message": null}"#));
}

#[test]
fn topics_sort_by_followers_keeps_ties_in_order() {
    let items = vec![
        parse(r#"{"id":"a","follownum":3}"#),
        parse(r#"{"id":"b","follownum":9}"#),
        parse(r#"{"id":"c","follownum":3}"#),
    ];
    let sorted = values(&sort_by_followers(&items));
    let ids: Vec<&str> = sorted.iter().map(|v| v["id"].as_str().unwrap()).collect();
    assert_eq!(ids, vec!["b", "a", "c"]);
}

#[test]
fn topic_hub_route_names_each_section() {
    assert!(matches!(topic_hub_route(" #V11_VERTICAL_TOPIC "), TopicRoute::Vertical));
    assert!(matches!(topic_hub_route("/topic/hotTagList"), TopicRoute::HotTags));
    assert!(matches!(topic_hub_route("/page?url=x"), TopicRoute::Page));
    match topic_hub_route("#tagList?tagType=2") {
        TopicRoute::CategorySearch(term) => assert_eq!(term, "电脑"),
        _ => panic!("type 2 is the computer category"),
    }
    match topic_hub_route("/main/tagList?sort=new") {
        TopicRoute::Ranking { sort, fallback } => {
            assert_eq!(sort, "new");
            assert_eq!(fallback, "/main/tagList?sort=new");
        }
        _ => panic!("other sections are rankings"),
    }
}

#[test]
fn user_tabs_map_to_sources() {
    match user_tab_source_of("42", "rating", "apk") {
        Some(UserTabSource::Page { url, title }) => {
            assert_eq!(url, "#/feed/nodeRatingList?uid=42&targetType=apk&parseRatingToFeed=1");
            assert_eq!(title, "评分");
        }
        _ => panic!("rating is a page"),
    }
    match user_tab_source_of("42", "reply", "") {
        Some(UserTabSource::Endpoint { path, extra }) => {
            assert_eq!(path, "/v6/user/replyList");
            assert!(extra.is_empty());
        }
        _ => panic!("reply is an endpoint"),
    }
    assert!(matches!(user_tab_source_of("42", "blacklist", ""), Some(UserTabSource::BlackList)));
    assert!(user_tab_source_of("42", "nope", "").is_none());
}

#[test]
fn relation_lists_show_the_other_user_and_drop_oneself() {
    let raw = parse(
        r#"{"data":[
            {"uid":"1","fuid":"2","fUserInfo":{"uid":"2","username":"other","userAvatar":"a.png"}},
            {"uid":"1","fuid":"1","fUserInfo":{"uid":"1","username":"me"}}
        ]}"#,
    );
    let page = from_json(&relation_user_list(&raw, "1", false));
    let data = page["data"].as_array().unwrap();
    assert_eq!(data.len(), 1);
    assert_eq!(data[0]["uid"], "2");
    assert_eq!(data[0]["fusername"], "other");
    assert_eq!(data[0]["isFollow"], 1);
}

#[test]
fn search_query_and_collection_page() {
    let q = search_query("feed", "猫", 1, "", "", "", "", "", "", 0, "", "");
    assert_eq!(q[0], ("type", "feed".to_string()));
    assert_eq!(q[1], ("searchValue", "猫".to_string()));
    let page = from_json(&collection_list_page(&parse(r#"{"data":[]}"#)));
    assert_eq!(page["code"], 200);
}

#[test]
fn user_search_keeps_named_users() {
    let raw = parse(
        r#"{"data":[
            {"entityType":"user","uid":"5","username":"n","userAvatar":"/a.png","fansnum":"12","level":3,"sign":"hi"},
            {"entityType":"user","uid":"","username":"x"},
            {"entityType":"feed","uid":"6","username":"y"},
            {"entityType":"user","uid":7,"username":"z","userAvatar":"http://x/y.png"}
        ]}"#,
    );
    let answer = from_json(&user_search_result(&raw));
    let data = answer["data"].as_array().unwrap();
    assert_eq!(data.len(), 2);
    assert_eq!(
        data[0],
        val(r#"{"avatar":"https://avatar.coolapk.com/a.png","bio":"hi","fans":12,"follow":0,"level":3,"uid":"5","username":"n","verifyTitle":""}"#)
    );
    assert_eq!(data[1]["uid"], "7");
    assert_eq!(data[1]["avatar"], "http://x/y.png");
}

#[test]
fn reply_detail_reads_the_device_from_the_user_agent() {
    let raw = parse(
        r#"{"data":{"id":77,"useragent":"Dalvik/2.1.0 (Linux; U; Android 16; 2210132C Build/BP2A.250605.031.A3) (#Build; Xiaomi; 2210132C; BP2A.250605.031.A3; HyperOS_3.0; 3.0.310.0) +CoolMarket/15.3.1","device_title":" ","userInfo":{"level":9,"verify_title":"v"},"ip_location":"上海"}}"#,
    );
    let answer = from_json(&reply_detail_answer(&raw).unwrap());
    let d = &answer["data"];
    assert_eq!(d["id"], "77");
    assert_eq!(d["deviceTitle"], "Xiaomi 2210132C");
    assert_eq!(d["deviceBuild"], "BP2A.250605.031.A3");
    assert_eq!(d["userLevel"], "9");
    assert_eq!(d["verifyTitle"], "v");
    assert_eq!(d["ipLocation"], "上海");
    assert_eq!(d["pic"], Value::Null);
    assert_eq!(d["dateline"], 0);
    assert!(reply_detail_answer(&parse(r#"{"data":[]}"#)).is_none());
}

// ---------------------------------------------------------------------------
// Login
// ---------------------------------------------------------------------------

#[test]
fn access_code_session_drops_the_old_identity() {
    let (code, cookie) =
        access_code_login_session(" abc ", Some("SESSID=s1; uid=9; username=x; token=t; ddid=d"), None).unwrap();
    assert_eq!(code, "abc");
    assert_eq!(cookie, "SESSID=s1; ddid=d");
    let (_, cookie) = access_code_login_session("c", Some("  "), Some("SESSID=s2; uid=1")).unwrap();
    assert_eq!(cookie, "SESSID=s2");
    assert!(matches!(access_code_login_session(" ", None, None), Err(LoginError::EmptyCode)));
    assert!(matches!(access_code_login_session("c", None, None), Err(LoginError::NoCallbackCookie)));
    assert!(matches!(access_code_login_session("c", Some("uid=1"), None), Err(LoginError::NoSession)));
    assert_eq!(LoginError::NoSession.message(), "授权回调没有带回有效的 SESSID");
}

#[test]
fn access_token_grant_prefers_the_refresh_token() {
    let g = access_token_grant(&parse(r#"{"data":{"uid":5,"userName":"n","refreshToken":"r","token":"t","avatar":"a"}}"#)).unwrap();
    assert_eq!((g.uid.as_str(), g.username.as_str(), g.token.as_str(), g.avatar.as_str()), ("5", "n", "r", "a"));
    let g = access_token_grant(&parse(r#"{"uid":"6","username":"m","refreshToken":"","token":"t"}"#)).unwrap();
    assert_eq!(g.token, "t");
    assert!(matches!(access_token_grant(&parse(r#"{"uid":"10000","username":"m","token":"t"}"#)), Err(LoginError::IncompleteGrant)));
    assert!(access_token_grant(&parse(r#"{"uid":"6","username":"","token":"t"}"#)).is_err());
    let cookie = granted_account_cookie("SESSID=s", &g);
    assert_eq!(cookie, "SESSID=s; uid=6; username=m; token=t");
}

#[test]
fn login_answers_open_a_session() {
    assert_eq!(session_cookie_of(&parse(r#"{"data":{"sessid":"s","uid":"3"}}"#)), Some("SESSID=s; uid=3".to_string()));
    assert_eq!(session_cookie_of(&parse(r#"{"data":{"token":"t","uid":3}}"#)), Some("SESSID=t".to_string()));
    assert_eq!(session_cookie_of(&parse(r#"{"data":{}}"#)), None);
}

#[test]
fn login_status_reads_the_uid_piece_exactly() {
    assert_eq!(login_status_uid_of("SESSID=a; uid=42; x=1"), Some("42".to_string()));
    assert_eq!(login_status_uid_of("uid=1=2; uid=7"), Some("7".to_string()));
    assert_eq!(login_status_uid_of("SESSID=a"), None);
    let info = parse(r#"{"code":200,"data":{"uid":"1"}}"#);
    let space = parse(r#"{"data":{"uid":"1","fans":3}}"#);
    assert_eq!(from_json(&login_status_result(info.deep_copy(), Some(&space)))["data"]["fans"], 3);
    assert_eq!(from_json(&login_status_result(info.deep_copy(), None)), from_json(&info));
}

#[test]
fn webview_and_password_logins() {
    assert!(webview_login_cookie("uid=1").is_none());
    assert_eq!(webview_login_cookie("SESSID=abc\r\n; uid=1").map(|c| c.contains('\n')), Some(false));
    assert_eq!(
        login_identity_of(&parse(r#"{"data":{"id":8,"userName":"n","avatar":"a"}}"#)),
        Some(("8".to_string(), "n".to_string(), "a".to_string()))
    );
    assert!(login_identity_of(&parse(r#"{"data":{"uid":"0"}}"#)).is_none());
    let form = pairs(&account_login_form("me", "password"));
    assert_eq!(form[2], ("md5_pass".to_string(), "5f4dcc3b5aa765d61d8327deb882cf99".to_string()));
    assert_eq!(form[3].1, form[2].1);
    assert!(is_password_login_refused(&parse(r#"{"message":"api unsupported"}"#)));
    assert!(is_password_login_refused(&parse(r#"{"message":"x","status":403}"#)));
    assert!(!is_password_login_refused(&parse(r#"{"status":403}"#)));
}

#[test]
fn session_checks_and_home_tab_answers() {
    assert!(matches!(check_session_cookie(None), Err(SessionError::NoCookie)));
    assert!(matches!(check_session_cookie(Some("uid=1")), Err(SessionError::NoSession)));
    assert!(check_session_cookie(Some("SESSID=abc")).is_ok());
    assert!(matches!(checked_login_info(parse(r#"{"data":{"uid":"10000"}}"#)), Err(SessionError::NotLoggedIn)));
    assert!(checked_login_info(parse(r#"{"data":{"uid":"5"}}"#)).is_ok());
    assert_eq!(
        from_json(&home_tab_config_result(None)),
        val(r#"{"code": 200, "message": "未登录，已保存至本地"}"#)
    );
    assert_eq!(
        from_json(&home_tab_config_result(Some(Err("w".to_string())))),
        val(r#"{"code": 200, "warning": "w"}"#)
    );
}

#[test]
fn test_login_cookie_persistence_flow() {
    let fake_cookie = "SESSID=abc123def456; uid=10086; Hm_lvt_xxx=1";
    let root = save_account_to(default_accounts_root(), "10086", "测试用户", "", fake_cookie).ok().unwrap();
    let value = from_json(&root);
    assert_eq!(value["lastLoginUid"].as_str(), Some("10086"));
    assert_eq!(restored_cookie(&root), Some(fake_cookie.to_string()));
}

#[test]
fn test_login_cookie_dirty_input_sanitized() {
    let dirty = "SESSID=abc;\r\n uid=10086; 昵称=oxygen的喵; other=\"v\"";
    let root = save_account_to(default_accounts_root(), "10086", "测试用户", "", dirty).ok().unwrap();
    let value = from_json(&root);
    let cookie = value["accounts"][0]["cookie"].as_str().unwrap_or("");
    assert!(!cookie.contains('\r') && !cookie.contains('\n'));
    assert!(cookie.contains("SESSID=abc") && cookie.contains("uid=10086"));
}

#[test]
fn account_and_guest_device_codes_are_recorded() {
    let (root, code) = account_device_code(default_accounts_root(), "42");
    assert_eq!(code, generate_device_code_for_id("42"));
    let value = from_json(&root);
    assert_eq!(value["accounts"][0], val(&format!(r#"{{"cookie":"","deviceCode":"{code}","uid":"42"}}"#)));
    let (again, _) = account_device_code(root, "42");
    assert_eq!(from_json(&again)["accounts"].as_array().map(|a| a.len()), Some(1));

    let (with_guest, guest) = guest_device_code(default_accounts_root(), 7);
    assert!(is_valid_device_code(&guest));
    let (same, kept) = guest_device_code(with_guest, 8);
    assert_eq!(kept, guest);
    assert_eq!(from_json(&same)["guestDeviceCode"], guest.as_str());
}

// ---------------------------------------------------------------------------
// Requests
// ---------------------------------------------------------------------------

#[test]
fn device_headers_skip_blank_and_invalid_values() {
    let profile = DeviceProfile {
        user_agent: Some("UA".to_string()),
        sdk_int: Some("35".to_string()),
        locale: Some(" ".to_string()),
        app_version: Some("bad\nvalue".to_string()),
        app_code: Some("2604201".to_string()),
        api_version: None,
        dark_mode: Some("0".to_string()),
        szlm_id: None,
    };
    let headers = pairs(&device_request_headers(&profile, "CODE"));
    assert_eq!(
        headers,
        owned(&[
            ("X-App-Device", "CODE"),
            ("X-Sdk-Int", "35"),
            ("X-App-Code", "2604201"),
            ("X-Dark-Mode", "0"),
            ("X-App-Supported", "2604201"),
            ("User-Agent", "UA"),
        ])
    );
    let download = pairs(&download_request_headers("tok", &profile, "bad\u{7f}"));
    assert_eq!(download[0], ("X-App-Token".to_string(), "tok".to_string()));
    assert_eq!(download.len(), 12 + 5);
}

#[test]
fn api_calls_only_go_to_trusted_hosts() {
    assert_eq!(api_request_url("https://api2.coolapk.com", "/v6/x"), Some("https://api2.coolapk.com/v6/x".to_string()));
    assert!(api_request_url("https://evil.example", "/v6/x").is_none());
    assert_eq!(api_request_cookie("SESSID=a; ddid=d", "/v6/feed/like"), Some("SESSID=a".to_string()));
    assert_eq!(delete_action_url("/v6/feed/deleteFeed", "5"), "https://api.coolapk.com/v6/feed/deleteFeed?id=5");
}

#[test]
fn private_messages_need_a_numeric_uid_and_content() {
    assert_eq!(
        private_message_url(" 123 ", "hi", false).ok(),
        Some("https://api.coolapk.com/v6/message/send?uid=123&quick_reply=1".to_string())
    );
    assert!(matches!(private_message_url("12a", "hi", false), Err(MessageError::InvalidUid)));
    assert!(matches!(private_message_url("", "hi", false), Err(MessageError::InvalidUid)));
    assert!(matches!(private_message_url("1", " ", false), Err(MessageError::EmptyMessage)));
    assert!(matches!(private_message_url("1", " ", true), Err(MessageError::EmptyPicture)));
}

#[test]
fn posts_must_return_what_they_created() {
    assert_eq!(created_entity_id(&parse(r#"{"data":{"id":"5"}}"#)), Some("5".to_string()));
    assert_eq!(created_entity_id(&parse(r#"{"data":{"id":6}}"#)), Some("6".to_string()));
    assert_eq!(created_entity_id(&parse(r#"{"data":{}}"#)), None);
    assert_eq!(created_entity_id(&parse(r#"{"data":[]}"#)), None);
}

#[test]
fn szlm_probe_verdicts() {
    assert_eq!(szlm_probe_verdict(Ok(())), (true, "接口校验通过".to_string()));
    assert_eq!(szlm_probe_verdict(Err(" 请先登录 ")), (false, "服务端要求登录：请先登录".to_string()));
    assert_eq!(szlm_probe_verdict(Err("设备异常")), (false, "设备校验未通过：设备异常".to_string()));
    assert_eq!(
        szlm_probe_verdict(Err("参数错误")),
        (true, "设备校验通过（接口返回预期的参数错误）：参数错误".to_string())
    );
}

#[test]
fn like_answers_name_login_failures() {
    match like_answer(parse(r#"{"status":401}"#)) {
        Err(ApiError::Message(m)) => assert_eq!(m, "请先登录后再点赞（当前未登录或登录已失效）"),
        _ => panic!("a 401 is refused"),
    }
    match like_answer(parse(r#"{"status":-1,"error":"太快了"}"#)) {
        Err(ApiError::Message(m)) => assert_eq!(m, "太快了"),
        _ => panic!("a negative status is refused"),
    }
    let ok = like_answer(parse(r#"{"data":{"count":1}}"#)).ok().unwrap();
    assert_eq!(from_json(&ok), val(r#"{"code": 200, "data": {"count": 1}}"#));
}

#[test]
fn vote_and_album_forms() {
    let form = user_vote_form("9", &[" a ".to_string(), "b".to_string()], true).ok().unwrap();
    assert_eq!(
        form,
        owned(&[("id", "9"), ("anonymous_status", "1"), ("select_option[0]", "a"), ("select_option[1]", "b")])
    );
    assert!(matches!(user_vote_form(" ", &["a".to_string()], false), Err(VoteError::EmptyFeedId)));
    assert!(matches!(user_vote_form("9", &[], false), Err(VoteError::NoOption)));
    assert!(matches!(user_vote_form("9", &["a".to_string(), " ".to_string()], false), Err(VoteError::EmptyOption)));

    let album = product_album_form("t", "d", 2, "product", "7", r#"[{"id":"1","item_name":"n"}]"#);
    assert_eq!(album.len(), 5 + 8);
    assert_eq!(album[2], ("album_type".to_string(), "2".to_string()));
    assert_eq!(album[6], ("productItems[0][level]".to_string(), "1".to_string()));
    assert_eq!(album[9], ("productItems[0][item_name]".to_string(), "n".to_string()));
    assert_eq!(album[12], ("productItems[0][display_order]".to_string(), "0".to_string()));
    assert_eq!(product_album_form("t", "d", 0, "", "", "not json").len(), 5);
}

#[test]
fn app_and_game_lists_choose_their_sources() {
    assert_eq!(app_list_page_url("recommend"), Some("#/apk/rankList"));
    assert_eq!(app_list_page_url("tools"), None);
    assert_eq!(app_list_search_word("tools"), "系统工具");
    assert_eq!(app_list_search_word("newest"), "应用");
    assert_eq!(app_list_search_word("x"), "常用应用");
    assert_eq!(game_list_search_word("indie"), "独立游戏");
    assert_eq!(game_list_search_word("hot"), "手游");
    assert_eq!(
        pairs(&app_search_page_query("game", "网游", 4)),
        owned(&[("type", "game"), ("searchValue", "网游"), ("page", "4"), ("show_flag", "1")])
    );
}

// ---------------------------------------------------------------------------
// Review follow-ups
// ---------------------------------------------------------------------------

#[test]
fn read_only_list_endpoints_need_no_write_tokens() {
    let r = coolapk::paths::classify_path("/v6/feed/replyList");
    assert!(!r.needs_ddid && !r.needs_post_token);
    let r = coolapk::paths::classify_path("/v6/feed/reply?id=1");
    assert!(r.needs_ddid && r.needs_post_token);
}

#[test]
fn update_links_are_checked_before_download() {
    let (stem, ext) = update_package_name(
        "https://github.com/o/r/releases/download/v1/Coolapk Desktop_1.2.3_x64-setup.exe",
    )
    .unwrap();
    assert_eq!((stem.as_str(), ext.as_str()), ("CoolapkDesktop_1.2.3_x64-setup", "exe"));
    let (stem, ext) = update_package_name("https://objects.githubusercontent.com/x/.msi").unwrap();
    assert_eq!((stem.as_str(), ext.as_str()), ("coolapk-desktop-update", "msi"));
    assert!(matches!(update_package_name("http://github.com/a.exe"), Err(UpdateUrlError::NotHttps)));
    match update_package_name("https://Evil.example/a.exe") {
        Err(e) => assert_eq!(e.message(), "更新链接域名不在允许列表内: evil.example"),
        Ok(_) => panic!("foreign hosts are refused"),
    }
    assert!(matches!(update_package_name("https://github.com/a.zip"), Err(UpdateUrlError::BadFileName)));
    match update_package_name("not a url") {
        Err(e) => assert_eq!(e.message(), "更新链接无效: relative URL without a base"),
        Ok(_) => panic!("text that is no URL is refused"),
    }
}

#[test]
fn partial_paths_and_relative_directories() {
    assert_eq!(coolapk::downloads::partial_download_path("app.apk"), Ok("app.apk.part".to_string()));
    assert_eq!(
        coolapk::downloads::validate_custom_dir("relative/downloads", "自定义目录"),
        Err("自定义目录必须是当前平台的绝对路径：relative/downloads".to_string())
    );
}

#[test]
fn error_messages_carry_their_texts() {
    assert_eq!(coolapk::accounts::AccountError::InvalidUid.message(), "账户 UID 无效");
    assert_eq!(coolapk::accounts::AccountError::NoSession.message(), "账户凭据缺少有效的 SESSID");
    let refused = coolapk::api::wrap_api_data(parse(r#"{"message":"验证","messageStatus":"err_request_captcha_v2"}"#));
    match refused {
        Err(e @ ApiError::Captcha(_)) => {
            let text: Value = serde_json::from_str(&e.message()).unwrap();
            assert_eq!(text["messageStatus"], "err_request_captcha_v2");
        }
        _ => panic!("a captcha envelope is refused with the response"),
    }
}

#[test]
fn stored_uploads_and_szlm_prechecks_answer_at_once() {
    let ticket = coolapk::upload::parse_upload_ticket(&parse(
        r#"{"data":{"fileInfo":[{"uploadFileName":"f.jpg","url":"http://image.coolapk.com/f.jpg"}],"uploadPrepareInfo":{"bucket":"b","endPoint":"e","accessKeyId":"k","accessKeySecret":"s"}}}"#,
    ))
    .ok()
    .unwrap();
    let answer = coolapk::upload::stored_upload_answer(&ticket).unwrap();
    assert_eq!(from_json(&answer), val(r#"{"code":200,"data":"http://image.coolapk.com/f.jpg"}"#));
    let blank = coolapk::requests::szlm_check_precheck(" ", true).unwrap();
    assert_eq!(from_json(&blank), val(r#"{"code":200,"data":{"ok":false,"detail":"数字联盟ID为空"}}"#));
    assert!(coolapk::requests::szlm_check_precheck("id", false).is_some());
    assert!(coolapk::requests::szlm_check_precheck("id", true).is_none());
}

#[test]
fn logging_out_keeps_accounts_and_restores_nothing() {
    let root = save_account_to(default_accounts_root(), "10086", "u", "", "SESSID=abc").ok().unwrap();
    let out = coolapk::accounts::logged_out_accounts(root);
    let value = from_json(&out);
    assert_eq!(value["lastLoginUid"], "");
    assert_eq!(value["accounts"].as_array().map(|a| a.len()), Some(1));
    assert_eq!(restored_cookie(&out), None);
}

#[test]
fn download_responses_are_checked_step_by_step() {
    assert!(matches!(download_response_check(10, 416, ""), Err(DownloadResponseError::RangeRefused)));
    assert!(matches!(download_response_check(0, 416, ""), Err(DownloadResponseError::Http(416))));
    assert!(matches!(download_response_check(0, 200, "Text/HTML; charset=utf-8"), Err(DownloadResponseError::NotPackage)));
    assert!(matches!(download_response_check(10, 206, "application/vnd.android.package-archive"), Ok(true)));
    assert!(matches!(download_response_check(10, 200, ""), Ok(false)));
    assert_eq!(download_expected_total(true, 10, Some(90)).ok(), Some(100));
    assert_eq!(download_expected_total(false, 10, None).ok(), Some(0));
    assert!(download_expected_total(false, 0, Some(APK_DOWNLOAD_MAX_BYTES + 1)).is_err());
    assert_eq!(download_after_chunk(5, 7), Some(12));
    assert_eq!(download_after_chunk(APK_DOWNLOAD_MAX_BYTES, 1), None);
    assert!(download_completed(5, 0).is_ok());
    match download_completed(5, 9) {
        Err(e) => assert_eq!(e.message(), "下载中断：已下载 5/9 字节"),
        Ok(()) => panic!("a short body is interrupted"),
    }
}

#[test]
fn refused_statuses_are_shown_with_their_reason() {
    assert_eq!(DownloadResponseError::Http(404).message(), "下载失败：HTTP 404 Not Found");
    assert_eq!(DownloadResponseError::Http(503).message(), "下载失败：HTTP 503 Service Unavailable");
}

#[test]
fn extra_analysis_data_is_decoded_before_its_tilde() {
    let padded = decode_extra_analysis_data(" eyJ2ZXJzaW9uQ29kZSI6MjEwMX0=~signature").map(|j| from_json(&j));
    assert_eq!(padded, Some(val(r#"{"versionCode":2101}"#)));
    let unpadded = decode_extra_analysis_data("eyJ2ZXJzaW9uQ29kZSI6IjEyMyJ9").map(|j| from_json(&j));
    assert_eq!(unpadded, Some(val(r#"{"versionCode":"123"}"#)));
    let without_padding = decode_extra_analysis_data("eyJ2ZXJzaW9uQ29kZSI6MjEwMX0~x").map(|j| from_json(&j));
    assert_eq!(without_padding, Some(val(r#"{"versionCode":2101}"#)));
    assert!(decode_extra_analysis_data("   ~eyJhIjoxfQ==").is_none());
    assert!(decode_extra_analysis_data("").is_none());
    assert!(decode_extra_analysis_data("!!!not base64").is_none());
    assert!(decode_extra_analysis_data("bm90IGpzb24=").is_none());
}

#[test]
fn extra_data_comes_from_the_request_else_the_details() {
    let detail = to_json(&val(r#"{"extraAnalysisData":"eyJ2ZXJzaW9uQ29kZSI6IjEyMyJ9"}"#));
    let given = download_extra_data(Some("eyJhIjoxfQ=="), Some(&detail)).map(|j| from_json(&j));
    assert_eq!(given, Some(val(r#"{"a":1}"#)));
    let fallback = download_extra_data(Some("   "), Some(&detail)).map(|j| from_json(&j));
    assert_eq!(fallback, Some(val(r#"{"versionCode":"123"}"#)));
    assert!(download_extra_data(None, None).is_none());
}

#[test]
fn download_ids_prefer_the_request_then_the_details_then_the_extra_data() {
    let detail = to_json(&val(r#"{"id":"42","apkversioncode":7}"#));
    let extra = to_json(&val(r#"{"versionCode":"99"}"#));
    assert_eq!(
        resolve_download_ids(Some(" 1001 "), Some(" 5 "), Some(&detail), Some(&extra)),
        Ok(("1001".to_string(), "5".to_string()))
    );
    assert_eq!(
        resolve_download_ids(Some("  "), None, Some(&detail), Some(&extra)),
        Ok(("42".to_string(), "7".to_string()))
    );
    let bare = to_json(&val(r#"{"entityId":8}"#));
    assert_eq!(
        resolve_download_ids(None, None, Some(&bare), Some(&extra)),
        Ok(("8".to_string(), "99".to_string()))
    );
    assert_eq!(
        resolve_download_ids(None, Some("3"), Some(&extra), None),
        Err("应用详情未返回数字应用 ID".to_string())
    );
    assert_eq!(
        resolve_download_ids(Some("8"), None, Some(&bare), None),
        Err("应用详情未返回应用版本号".to_string())
    );
}

#[test]
fn update_downloads_stop_past_five_hundred_megabytes() {
    assert_eq!(UPDATE_MAX_BYTES, 500 * 1024 * 1024);
    assert!(update_announced_size(UPDATE_MAX_BYTES).is_ok());
    assert_eq!(update_announced_size(UPDATE_MAX_BYTES + 1), Err("更新包体积异常（超过 500MB），已拒绝下载".to_string()));
    assert_eq!(update_after_chunk(10, 20), Ok(30));
    assert_eq!(update_after_chunk(UPDATE_MAX_BYTES, 1), Err("更新包体积异常（超过 500MB），已中止下载".to_string()));
    assert_eq!(update_after_chunk(u64::MAX, 1), Err("更新包体积异常（超过 500MB），已中止下载".to_string()));
}
