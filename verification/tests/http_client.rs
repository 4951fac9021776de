use omnidisc::http_client::{proxy_url, ProxySettings};

fn settings(kind: &str, host: &str, user: &str) -> ProxySettings {
    ProxySettings {
        enabled: true,
        proxy_type: kind.into(),
        host: host.into(),
        port: 1080,
        username: user.into(),
        password: "pw".into(),
    }
}

#[test]
fn proxy_off_or_without_host_gives_no_url() {
    let mut p = settings("socks5", "proxy.local", "");
    p.enabled = false;
    assert_eq!(proxy_url(&p), None);
    assert_eq!(proxy_url(&settings("socks5", "", "")), None);
    assert_eq!(proxy_url(&ProxySettings::default()), None);
}

#[test]
fn proxy_url_with_and_without_credentials() {
    assert_eq!(
        proxy_url(&settings("socks5", "proxy.local", "")).as_deref(),
        Some("socks5://proxy.local:1080")
    );
    assert_eq!(
        proxy_url(&settings("https", "proxy.local", "me")).as_deref(),
        Some("https://me:pw@proxy.local:1080")
    );
    assert_eq!(
        proxy_url(&settings("ftp", "proxy.local", "")).as_deref(),
        Some("http://proxy.local:1080")
    );
}
