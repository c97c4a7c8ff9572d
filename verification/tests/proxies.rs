use webscrape::img_to_base64;
use webscrape::proxy::{CSVProxyListBuilder, ProxyField, SimpleProxy, field_positions};
use webscrape::ScraperBuilder;

#[test]
fn proxy_address_shape() {
    let p = SimpleProxy {
        host: "1.2.3.4".to_string(),
        port: "8080".to_string(),
        user: "u".to_string(),
        password: "p".to_string(),
    };
    assert_eq!(p.get_address(), "http://1.2.3.4:8080");
}

#[test]
fn csv_builder_parses_lines() {
    let mut b = CSVProxyListBuilder::default();
    b.set_separator(":");
    b.set_source("unused");
    let lines = vec![
        "h1:80:u1:pw1".to_string(),
        "short".to_string(),
        "h2:81:u2:pw2".to_string(),
    ];
    let proxies = b.parse(&lines).unwrap();
    assert_eq!(proxies.len(), 2);
    assert_eq!(proxies[0].host, "h1");
    assert_eq!(proxies[0].port, "80");
    assert_eq!(proxies[0].user, "u1");
    assert_eq!(proxies[0].password, "pw1");
    assert_eq!(proxies[1].host, "h2");
}

#[test]
fn csv_builder_custom_columns() {
    let mut b = CSVProxyListBuilder::default();
    b.set_separator(",");
    b.set_columns([
        ProxyField::Password,
        ProxyField::Username,
        ProxyField::Port,
        ProxyField::Host,
    ]);
    let lines = vec!["pw,u,80,h".to_string()];
    let proxies = b.parse(&lines).unwrap();
    assert_eq!(proxies[0].host, "h");
    assert_eq!(proxies[0].port, "80");
    assert_eq!(proxies[0].user, "u");
    assert_eq!(proxies[0].password, "pw");
}

#[test]
fn missing_column_meaning_is_rejected() {
    let r = field_positions(&[
        ProxyField::Host,
        ProxyField::Host,
        ProxyField::Port,
        ProxyField::Username,
    ]);
    assert!(r.is_none());
}

#[test]
fn scraper_builder_settings() {
    let mut b = ScraperBuilder::default();
    assert!(b.headless);
    assert_eq!(b.default_timeout, 5);
    assert_eq!(b.save_dir, ".scraping_results/");
    assert!(b.proxies.is_empty());
    b.set_headless(false);
    b.set_default_timeout(9);
    b.set_save_dir("elsewhere/".to_string());
    b.set_proxies(vec![SimpleProxy {
        host: "h".to_string(),
        port: "1".to_string(),
        user: String::new(),
        password: String::new(),
    }]);
    assert!(!b.headless);
    assert_eq!(b.default_timeout, 9);
    assert_eq!(b.save_dir, "elsewhere/");
    assert_eq!(b.proxies.len(), 1);
}

#[test]
fn base64_of_bytes() {
    assert_eq!(img_to_base64(&vec![97, 98, 99]), "YWJj");
    assert_eq!(img_to_base64(&vec![]), "");
    assert_eq!(img_to_base64(&vec![0]), "AA==");
}
