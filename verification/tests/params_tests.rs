use typefree::params::build_asr_url;
use typefree::params::build_asr_url_from_template;
use typefree::params::parse_asr_url_params;
use typefree::params::UrlParams;

#[test]
fn url_params_parse_in_order() {
    let p = parse_asr_url_params("wss://host/asr?a=1&b=2&c=");
    assert_eq!(
        p.pairs,
        vec![
            ("a".to_string(), "1".to_string()),
            ("b".to_string(), "2".to_string()),
            ("c".to_string(), String::new()),
        ]
    );
}

#[test]
fn url_params_later_value_wins() {
    let p = parse_asr_url_params("wss://host/asr?a=1&b=2&a=3");
    assert_eq!(
        p.pairs,
        vec![("a".to_string(), "3".to_string()), ("b".to_string(), "2".to_string())]
    );
}

#[test]
fn url_params_skip_pieces_without_equals() {
    let p = parse_asr_url_params("wss://host/asr?a=1&flag&b=2");
    assert_eq!(
        p.pairs,
        vec![("a".to_string(), "1".to_string()), ("b".to_string(), "2".to_string())]
    );
}

#[test]
fn url_without_query_has_no_params() {
    let p = parse_asr_url_params("wss://host/asr");
    assert_eq!(p.pairs, Vec::<(String, String)>::new());
}

#[test]
fn url_params_value_may_contain_equals() {
    let p = parse_asr_url_params("u?k=a=b");
    assert_eq!(p.pairs, vec![("k".to_string(), "a=b".to_string())]);
}

#[test]
fn template_substitutes_identity_values() {
    let p = parse_asr_url_params(
        "wss://x/asr?device_id=old&pc_version=0&web_id=old&tea_uuid=old&chromium_version=0&fp=verify_old&web_tab_id=old&keep=asis",
    );
    let url = build_asr_url_from_template(&p, "D", "W", "PC", "CH", "TAB");
    assert_eq!(
        url,
        "wss://ws-samantha.doubao.com/samantha/audio/asr?device_id=D&pc_version=PC&web_id=W&tea_uuid=D&chromium_version=CH&fp=verify_W&web_tab_id=TAB&keep=asis"
        .to_string()
    );
}

#[test]
fn empty_template_renders_bare_endpoint() {
    let p = UrlParams::new();
    let url = build_asr_url_from_template(&p, "D", "W", "PC", "CH", "TAB");
    assert_eq!(url, "wss://ws-samantha.doubao.com/samantha/audio/asr?".to_string());
}

#[test]
fn fallback_url_has_fixed_shape() {
    let url = build_asr_url("d1", "w7", "1.0", "2.0", "T");
    assert_eq!(
        url,
        "wss://ws-samantha.doubao.com/samantha/audio/asr?version_code=20800&language=zh&device_platform=web&aid=582478&real_aid=582478&pkg_type=release_version&device_id=d1&pc_version=1.0&web_id=w7&tea_uuid=d1&region=&sys_region=&samantha_web=1&use-olympus-account=1&runtime=web&runtime_version=2.51.3&client_platform=pc_client&chromium_version=2.0&fp=verify_w7&web_tab_id=T&format=pcm"
        .to_string()
    );
}
