use coolapk::callback::{
    extract_access_code_from_url, extract_callback_param, extract_ck_from_url,
    LOGIN_WEBVIEW_USER_AGENT,
};
use coolapk::downloads::{
    constrain_windows_download_file_name, partial_download_path, sanitize_apk_file_name,
    validate_custom_dir, validate_download_path_for_file_operation,
};
use coolapk::files::{build_generated_image_file_name, build_image_file_name, decode_image_data_url};
use coolapk::url::is_coolapk_download_host;

fn on_windows() -> bool {
    std::path::MAIN_SEPARATOR == '\\'
}

fn scratch_dir() -> std::path::PathBuf {
    if on_windows() {
        std::path::PathBuf::from(r"C:\Temp")
    } else {
        std::path::PathBuf::from("/tmp")
    }
}

#[test]
fn login_webview_ua_keeps_desktop_mouse_events() {
    assert!(LOGIN_WEBVIEW_USER_AGENT.contains("Windows NT"));
    assert!(!LOGIN_WEBVIEW_USER_AGENT.contains("Mobile"));
}

#[test]
fn extracts_access_code_and_cookie_from_hash_callback() {
    let url = "http://127.0.0.1:17520/#/auth_callback?ac=access_token&code=one%2Btime&ck=SESSID%3Dsession%3B%20uid%3D0";
    assert_eq!(extract_callback_param(url, "ac").as_deref(), Some("access_token"));
    assert_eq!(extract_access_code_from_url(url).as_deref(), Some("one+time"));
    assert_eq!(extract_ck_from_url(url).as_deref(), Some("SESSID=session; uid=0"));
}

#[test]
fn extracts_access_code_from_account_query_callback() {
    let url = "https://account.coolapk.com/auth/callback?ac=access_token&code=server-code";
    assert_eq!(extract_access_code_from_url(url).as_deref(), Some("server-code"));
}

#[test]
fn rejects_non_access_token_callback() {
    let url = "https://account.coolapk.com/auth/callback?ac=login&code=server-code";
    assert_eq!(extract_access_code_from_url(url), None);
}

#[test]
fn generated_image_file_name_is_safe_and_uses_payload_format() {
    assert_eq!(
        build_generated_image_file_name("coolapk-feed-42.png", "image/jpeg", 0),
        "coolapk-feed-42.jpg"
    );
    assert_eq!(build_generated_image_file_name("../unsafe/name.png", "image/png", 0), "name.png");
}

#[test]
fn image_save_helpers_keep_original_format_and_avoid_overwrite() {
    let (mime_type, bytes) = decode_image_data_url("data:image/png;base64,YWJj").ok().unwrap();
    assert_eq!(mime_type, "image/png");
    assert_eq!(bytes, b"abc");
    assert_eq!(
        build_image_file_name("https://image.coolapk.com/feed/2026/abc123.jpg", &mime_type, 0),
        "abc123.png"
    );
}

#[test]
fn rejects_custom_directory_that_is_not_absolute_on_current_platform() {
    let incompatible = if on_windows() { "/home/user/Downloads" } else { r"D:\Downloads" };
    assert!(validate_custom_dir(incompatible, "自定义目录").is_err());
    assert!(validate_custom_dir("relative/downloads", "自定义目录").is_err());
}

#[test]
fn download_file_name_keeps_supported_extension_and_removes_path_separators() {
    let windows = on_windows();
    assert_eq!(sanitize_apk_file_name("酷安/测试.apk", windows).unwrap(), "酷安_测试.apk");
    assert_eq!(sanitize_apk_file_name("demo", windows).unwrap(), "demo.apk");
    assert!(sanitize_apk_file_name("..", windows).is_err());
    assert_eq!(sanitize_apk_file_name("CON.apk", true).unwrap(), "_CON.apk");
}

#[test]
fn download_partial_path_keeps_platform_path_separators() {
    let target = scratch_dir().join("coolapk").join("demo.apk");
    let expected = target.with_file_name("demo.apk.part");
    assert_eq!(
        partial_download_path(&target.to_string_lossy()).unwrap(),
        expected.to_string_lossy()
    );
}

#[test]
fn long_download_file_name_is_shortened_only_for_windows() {
    let root = scratch_dir().join("coolapk-download-path");
    let root_text = root.to_string_lossy().to_string();
    let file_name = format!("{}.apk", "a".repeat(400));
    let kept = constrain_windows_download_file_name(&root_text, file_name.clone(), false).unwrap();
    assert_eq!(kept, file_name);
    let short = constrain_windows_download_file_name(&root_text, file_name.clone(), true).unwrap();
    assert!(format!("{root_text}\\{short}").encode_utf16().count() <= 240);
    assert!(short.ends_with(".apk"));
}

#[test]
fn only_official_api_hosts_use_the_coolapk_post_download_protocol() {
    assert!(is_coolapk_download_host("api.coolapk.com"));
    assert!(is_coolapk_download_host("api-dev.coolapk.com"));
    assert!(!is_coolapk_download_host("download.coolapk.com"));
    assert!(!is_coolapk_download_host("cdn.coolapk.com"));
}

#[test]
fn download_file_operations_accept_apk_and_partial_paths() {
    let root = scratch_dir().join("coolapk-download-path-test");
    let windows = on_windows();
    let apk = root.join("demo.apk").to_string_lossy().to_string();
    let partial = root.join("demo.apk.part").to_string_lossy().to_string();
    let text = root.join("demo.txt").to_string_lossy().to_string();
    assert!(validate_download_path_for_file_operation(&apk, windows).is_ok());
    assert!(validate_download_path_for_file_operation(&partial, windows).is_ok());
    assert!(validate_download_path_for_file_operation(&text, windows).is_err());
}

#[test]
fn a_stray_percent_outside_the_decoded_values_is_accepted() {
    let url = "https://www.coolapk.com/cb?ac=access_token&code=abc#%€";
    assert_eq!(extract_access_code_from_url(url).as_deref(), Some("abc"));
    assert_eq!(extract_ck_from_url("https://www.coolapk.com/cb?ck=a%3Db#%€").as_deref(), Some("a=b"));
}
