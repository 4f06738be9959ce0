use coolapk::accounts::{default_accounts_root, guest_device_code};
use coolapk::device::{generate_device_code_with_szlm, DeviceProfile};
use coolapk::identity::DeviceState;

fn decode(code: &str) -> String {
    coolapk::device::decode_device_code(code).expect("设备码应为合法 Base64 与 UTF-8")
}

fn fresh_identity(cookie: Option<&str>) -> DeviceState {
    let (_, guest) = guest_device_code(default_accounts_root(), 7);
    DeviceState::new(DeviceProfile::default(), None, cookie.map(|c| c.to_string()), guest)
}

fn with_szlm(id: &str) -> DeviceProfile {
    DeviceProfile { szlm_id: Some(id.to_string()), ..DeviceProfile::default() }
}

#[test]
fn test_sync_device_code_prefers_szlm_id() {
    let mut client = fresh_identity(None);
    client.update_device_profile(with_szlm("b1f8a0c2d3e4f5a6b7c8d9e0f1a2b3c4"));
    let code = client.device_code.clone();
    assert!(
        decode(&code).starts_with("b1f8a0c2d3e4f5a6b7c8d9e0f1a2b3c4;"),
        "生效设备码应以数字联盟ID为首字段"
    );

    client.update_device_profile(DeviceProfile::default());
    let code = client.device_code.clone();
    assert!(
        !decode(&code).starts_with("b1f8a0c2d3e4f5a6b7c8d9e0f1a2b3c4;"),
        "清空数字联盟ID后应恢复默认设备码"
    );
}

#[test]
fn test_custom_szlm_id_sanitizes_input() {
    let mut client = fresh_identity(None);
    client.update_device_profile(with_szlm("  b1f8; a0c2\n\t d3e4  "));
    let code = client.device_code.clone();
    let decoded = decode(&code);
    assert!(
        decoded.starts_with("b1f8a0c2d3e4;"),
        "清洗后的数字联盟ID应为 b1f8a0c2d3e4，实际首字段: {}",
        decoded.split(';').next().unwrap_or_default()
    );

    client.update_device_profile(with_szlm("   \n\t  "));
    let info = client.device_info();
    assert!(!info.szlm_active, "纯空白ID视为未设置");
}

#[test]
fn a_digital_alliance_id_decides_the_device_information() {
    let mut client = fresh_identity(Some("SESSID=abc; uid=10086"));
    assert_eq!(client.device_info().code_source, "account");
    client.update_device_profile(with_szlm("  b1f8; a0c2\n\t d3e4  "));
    let info = client.device_info();
    assert!(info.szlm_active && info.logged_in);
    assert_eq!(info.code_source, "szlm");
    assert_eq!(info.device_code, generate_device_code_with_szlm("b1f8a0c2d3e4"));
}

#[test]
fn the_digital_alliance_check_restores_the_identity() {
    let mut client = fresh_identity(Some("SESSID=abc; uid=10086"));
    let before = client.device_info();
    let previous = client.begin_szlm_probe("  b1f8a0c2  ").ok().expect("a logged-in check probes");
    let probing = client.device_info();
    assert_eq!(probing.code_source, "szlm");
    assert_eq!(probing.device_code, generate_device_code_with_szlm("b1f8a0c2"));
    let verdict = client.finish_szlm_probe(previous, Err(" 设备异常 "));
    assert_eq!(verdict, (false, "设备校验未通过：设备异常".to_string()));
    let after = client.device_info();
    assert_eq!(
        (after.logged_in, after.szlm_active, after.code_source, after.device_code),
        (before.logged_in, before.szlm_active, before.code_source, before.device_code)
    );
}

#[test]
fn the_digital_alliance_check_is_refused_without_id_or_session() {
    let mut anonymous = fresh_identity(None);
    let before = anonymous.device_code.clone();
    assert_eq!(
        anonymous.begin_szlm_probe("abc").err(),
        Some((false, "请先登录：写接口的设备校验需要登录态".to_string()))
    );
    assert_eq!(anonymous.device_code, before);
    let mut logged_in = fresh_identity(Some("SESSID=abc; uid=1"));
    assert_eq!(logged_in.begin_szlm_probe("  \t ").err(), Some((false, "数字联盟ID为空".to_string())));
}

#[test]
fn a_saved_account_logs_in_and_a_refused_one_changes_nothing() {
    let mut client = fresh_identity(None);
    let before = client.device_code.clone();
    let refused = client.save_account(default_accounts_root(), "10000", "测试用户", "", "SESSID=abc123def456; uid=10000");
    assert!(refused.is_err());
    assert_eq!(client.cookie, None);
    assert_eq!(client.device_code, before);

    let cookie = "SESSID=abc123def456; uid=10086; Hm_lvt_xxx=1";
    let saved = client.save_account(default_accounts_root(), "10086", "测试用户", "", cookie);
    assert!(saved.is_ok());
    assert_eq!(client.cookie.as_deref(), Some(cookie));
    let info = client.device_info();
    assert!(info.logged_in);
    assert_eq!(info.code_source, "account");
    assert_eq!(info.device_code, coolapk::device::generate_device_code_for_id("10086"));

    let root = client.log_out(saved.ok().expect("saved store"));
    assert_eq!(client.cookie, None);
    assert_eq!(client.device_code, before);
    assert_eq!(coolapk::accounts::restored_cookie(&root), None);
}
