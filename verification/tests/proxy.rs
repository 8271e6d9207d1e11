use netstatus::{Dictionary, PropertyValue, ProxyConfig, proxy_config_from_dict};

fn dict(pairs: Vec<(&str, PropertyValue)>) -> Dictionary {
    Dictionary { entries: pairs.into_iter().map(|(k, v)| (k.to_string(), v)).collect() }
}

fn text(s: &str) -> PropertyValue {
    PropertyValue::Text(s.to_string())
}

#[test]
fn no_proxy_configured() {
    let config = proxy_config_from_dict(&dict(vec![]));
    assert!(!config.http.enabled);
    assert!(!config.https.enabled);
    assert!(!config.socks.enabled);
    assert_eq!(config.pac_url, None);
    assert!(config.exceptions.is_empty());
}

#[test]
fn http_proxy_enabled_with_host_and_port() {
    let d = dict(vec![
        ("HTTPEnable", PropertyValue::Bool(true)),
        ("HTTPPort", PropertyValue::Number(Some(8080))),
        ("HTTPProxy", text("proxy.example.com")),
    ]);
    let config = proxy_config_from_dict(&d);
    assert!(config.http.enabled);
    assert_eq!(config.http.host, Some("proxy.example.com".to_string()));
    assert_eq!(config.http.port, Some(8080));
}

#[test]
fn pac_enabled_extracts_url() {
    let d = dict(vec![
        ("ProxyAutoConfigEnable", PropertyValue::Bool(true)),
        ("ProxyAutoConfigURLString", text("http://example.com/proxy.pac")),
    ]);
    assert_eq!(proxy_config_from_dict(&d).pac_url, Some("http://example.com/proxy.pac".to_string()));
}

#[test]
fn pac_url_ignored_when_disabled() {
    let d = dict(vec![
        ("ProxyAutoConfigEnable", PropertyValue::Bool(false)),
        ("ProxyAutoConfigURLString", text("http://example.com/proxy.pac")),
    ]);
    assert_eq!(proxy_config_from_dict(&d).pac_url, None);
}

#[test]
fn exceptions_list_parsed() {
    let exceptions = PropertyValue::Array(vec![text("*.local"), text("169.254/16")]);
    let d = dict(vec![("ExceptionsList", exceptions)]);
    assert_eq!(
        proxy_config_from_dict(&d).exceptions,
        vec!["*.local".to_string(), "169.254/16".to_string()]
    );
}

#[test]
fn out_of_range_port_and_mistyped_values_are_ignored() {
    let d = dict(vec![
        ("HTTPSEnable", text("yes")),
        ("HTTPSPort", PropertyValue::Number(Some(70000))),
        ("SOCKSPort", PropertyValue::Number(None)),
        ("SOCKSProxy", PropertyValue::Number(Some(1))),
        ("ExceptionsList", PropertyValue::Array(vec![text("a"), PropertyValue::Bool(true), text("b")])),
    ]);
    let config = proxy_config_from_dict(&d);
    assert!(!config.https.enabled);
    assert_eq!(config.https.port, None);
    assert_eq!(config.socks.port, None);
    assert_eq!(config.socks.host, None);
    assert_eq!(config.exceptions, vec!["a".to_string(), "b".to_string()]);
    assert_eq!(ProxyConfig::default(), proxy_config_from_dict(&dict(vec![])));
}
