use typefree::credentials::build_cookie_header;
use typefree::credentials::device_id_from_cookies;
use typefree::credentials::extract_cookie_value;
use typefree::credentials::find_chat_page;
use typefree::credentials::fresh_tab_id;
use typefree::credentials::is_asr_ws_url;
use typefree::credentials::parse_user_agent;
use typefree::credentials::web_id_from_cookies;
use typefree::credentials::AsrRequestInfo;
use typefree::credentials::CdpCookie;
use typefree::credentials::CdpPage;
use typefree::credentials::CredentialError;
use typefree::credentials::CredentialStore;

fn cookie(name: &str, value: &str, domain: &str) -> CdpCookie {
    CdpCookie {
        name: name.to_string(),
        value: value.to_string(),
        domain: domain.to_string(),
    }
}

#[test]
fn cookie_header_keeps_only_service_domain() {
    let cookies = vec![
        cookie("sid", "abc", "www.doubao.com"),
        cookie("other", "x", "example.com"),
        cookie("tok", "42", ".doubao.com"),
    ];
    assert_eq!(build_cookie_header(&cookies), "sid=abc; tok=42".to_string());
}

#[test]
fn cookie_header_empty_when_nothing_matches() {
    let cookies = vec![cookie("a", "1", "example.com")];
    assert_eq!(build_cookie_header(&cookies), String::new());
}

#[test]
fn extract_cookie_finds_first_by_name() {
    let cookies = vec![
        cookie("a", "1", "d"),
        cookie("b", "2", "d"),
        cookie("a", "3", "d"),
    ];
    assert_eq!(extract_cookie_value(&cookies, "a"), Some("1".to_string()));
    assert_eq!(extract_cookie_value(&cookies, "c"), None);
}

#[test]
fn user_agent_versions_are_parsed() {
    let ua = "Mozilla/5.0 AppleWebKit/537.36 Chrome/120.0.0.0 Safari/537.36 SamanthaDoubao/2.0.1";
    let (pc, chromium) = parse_user_agent(ua);
    assert_eq!(pc, "2.0.1".to_string());
    assert_eq!(chromium, "120.0.0.0".to_string());
}

#[test]
fn user_agent_defaults_when_markers_missing() {
    let (pc, chromium) = parse_user_agent("curl/8.0");
    assert_eq!(pc, "1.85.8".to_string());
    assert_eq!(chromium, "135.0.0.0".to_string());
}

#[test]
fn identity_values_fall_back_in_order() {
    let with_device = vec![cookie("device_id", "d9", "x")];
    assert_eq!(device_id_from_cookies(&with_device), "d9".to_string());
    let with_verify = vec![cookie("s_v_web_id", "verify_w42", "x")];
    assert_eq!(device_id_from_cookies(&with_verify), "w42".to_string());
    assert_eq!(web_id_from_cookies(&with_verify), "w42".to_string());
    let none: Vec<CdpCookie> = Vec::new();
    assert_eq!(device_id_from_cookies(&none), "1707977353229076".to_string());
    assert_eq!(web_id_from_cookies(&none), "7589709632207275535".to_string());
}

#[test]
fn chat_page_selection_takes_first_match() {
    let pages = vec![
        CdpPage { url: "https://example.com".to_string(), ws_url: None },
        CdpPage {
            url: "https://www.doubao.com/chat/1".to_string(),
            ws_url: Some("ws://dbg/1".to_string()),
        },
        CdpPage {
            url: "https://www.doubao.com/chat/2".to_string(),
            ws_url: Some("ws://dbg/2".to_string()),
        },
    ];
    assert_eq!(find_chat_page(&pages), Some(1));
    let empty: Vec<CdpPage> = Vec::new();
    assert_eq!(find_chat_page(&empty), None);
}

#[test]
fn asr_socket_urls_are_recognized() {
    assert!(is_asr_ws_url("wss://ws-samantha.doubao.com/samantha/audio/asr?x=1"));
    assert!(!is_asr_ws_url("wss://ws-samantha.doubao.com/samantha/chat"));
    assert!(!is_asr_ws_url("wss://other/asr"));
}

#[test]
fn tab_id_is_hyphenated_uuid_shape() {
    let id = fresh_tab_id();
    assert_eq!(id.len(), 36);
    assert_eq!(id.chars().filter(|c| *c == '-').count(), 4);
}

#[test]
fn store_caches_and_clears() {
    let mut store = CredentialStore::new();
    assert_eq!(store.get_cached_cookies(), None);
    assert_eq!(store.get_cached_login_status(), None);
    assert!(store.get_cached_asr_request().is_none());
    assert!(store.get_cached_url_params().is_none());
    assert!(!store.is_available_cached());

    store.set_cached_cookies("sid=1".to_string());
    assert_eq!(store.get_cached_cookies(), Some("sid=1".to_string()));
    store.set_cached_login_status(true);
    assert_eq!(store.get_cached_login_status(), Some(true));
    store.clear_cached_cookies();
    assert_eq!(store.get_cached_cookies(), None);
    assert_eq!(store.get_cached_login_status(), Some(true));

    let params = typefree::params::parse_asr_url_params("u?a=1");
    store.set_cached_url_params(params);
    assert!(store.get_cached_url_params().is_some());
    store.clear_cached_url_params();
    assert!(store.get_cached_url_params().is_none());
}

#[test]
fn default_request_info_stands_in() {
    let store = CredentialStore::new();
    let info = store.get_asr_request_info();
    assert_eq!(info.origin, "https://www.doubao.com".to_string());
    assert!(info.url.starts_with("wss://ws-samantha.doubao.com/samantha/audio/asr?"));
    let cached = AsrRequestInfo {
        url: "wss://somewhere".to_string(),
        user_agent: "ua".to_string(),
        origin: "o".to_string(),
    };
    let mut store2 = CredentialStore::new();
    store2.set_cached_asr_request(cached.clone());
    assert_eq!(store2.get_asr_request_info(), cached);
}

#[test]
fn assemble_fails_without_service_cookies() {
    let mut store = CredentialStore::new();
    let cookies = vec![cookie("a", "1", "example.com")];
    let r = store.assemble_asr_info(&cookies, None, None, "TAB");
    assert_eq!(r, Err(CredentialError::NoValidCookies));
    assert_eq!(store.get_cached_cookies(), None);
}

#[test]
fn assemble_builds_fallback_url_and_caches() {
    let mut store = CredentialStore::new();
    let cookies = vec![
        cookie("device_id", "dev1", "www.doubao.com"),
        cookie("s_v_web_id", "verify_w99", ".doubao.com"),
    ];
    let ua = "X SamanthaDoubao/9.9.9 Chrome/100.1 Y".to_string();
    let (header, info) = store
        .assemble_asr_info(&cookies, Some(ua.clone()), None, "TAB")
        .unwrap();
    assert_eq!(header, "device_id=dev1; s_v_web_id=verify_w99".to_string());
    assert_eq!(info.user_agent, ua);
    assert_eq!(info.origin, "https://www.doubao.com".to_string());
    let expected_url = "wss://ws-samantha.doubao.com/samantha/audio/asr?version_code=20800&language=zh&device_platform=web&aid=582478&real_aid=582478&pkg_type=release_version&device_id=dev1&pc_version=9.9.9&web_id=w99&tea_uuid=dev1&region=&sys_region=&samantha_web=1&use-olympus-account=1&runtime=web&runtime_version=2.51.3&client_platform=pc_client&chromium_version=100.1&fp=verify_w99&web_tab_id=TAB&format=pcm";
    assert_eq!(info.url, expected_url.to_string());
    assert_eq!(store.get_cached_cookies(), Some(header));
    assert_eq!(store.get_asr_request_info(), info);
    assert!(store.get_cached_url_params().is_none());
}

#[test]
fn assemble_uses_captured_template() {
    let mut store = CredentialStore::new();
    let cookies = vec![cookie("device_id", "D2", "www.doubao.com")];
    let captured = "wss://x/asr?device_id=old&foo=bar&fp=verify_old".to_string();
    let (_, info) = store
        .assemble_asr_info(&cookies, None, Some(captured), "T")
        .unwrap();
    assert_eq!(
        info.url,
        "wss://ws-samantha.doubao.com/samantha/audio/asr?device_id=D2&foo=bar&fp=verify_7589709632207275535"
            .to_string()
    );
    // The captured template is cached for the next session.
    assert!(store.get_cached_url_params().is_some());
}

#[test]
fn assemble_prefers_cached_template() {
    let mut store = CredentialStore::new();
    store.set_cached_url_params(typefree::params::parse_asr_url_params("u?a=1&web_tab_id=x"));
    let cookies = vec![cookie("device_id", "D3", "www.doubao.com")];
    let (_, info) = store.assemble_asr_info(&cookies, None, None, "T9").unwrap();
    assert_eq!(
        info.url,
        "wss://ws-samantha.doubao.com/samantha/audio/asr?a=1&web_tab_id=T9".to_string()
    );
}
