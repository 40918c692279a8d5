use bad_frpc_launcher::config::{
    escape_toml_string, normalize_proxy_type, proxy_type_label, SimpleConfigForm,
};
use bad_frpc_launcher::toml_doc::TomlValue;

fn form(
    addr: &str,
    port: &str,
    token: &str,
    name: &str,
    ty: &str,
    ip: &str,
    local: &str,
    remote: &str,
) -> SimpleConfigForm {
    SimpleConfigForm {
        server_addr: addr.to_string(),
        server_port: port.to_string(),
        auth_token: token.to_string(),
        proxy_name: name.to_string(),
        proxy_type: ty.to_string(),
        local_ip: ip.to_string(),
        local_port: local.to_string(),
        remote_port: remote.to_string(),
    }
}

fn fields(f: &SimpleConfigForm) -> Vec<String> {
    vec![
        f.server_addr.clone(),
        f.server_port.clone(),
        f.auth_token.clone(),
        f.proxy_name.clone(),
        f.proxy_type.clone(),
        f.local_ip.clone(),
        f.local_port.clone(),
        f.remote_port.clone(),
    ]
}

#[test]
fn default_form_values() {
    let f = SimpleConfigForm::default();
    assert_eq!(
        fields(&f),
        vec!["", "7000", "", "minecraft", "tcp", "127.0.0.1", "25565", "25565"]
    );
}

#[test]
fn default_form_writes_expected_toml() {
    let f = SimpleConfigForm::default();
    let expected = "serverAddr = \"\"\nserverPort = 7000\n\n[[proxies]]\nname = \"minecraft\"\ntype = \"tcp\"\nlocalIP = \"127.0.0.1\"\nlocalPort = 25565\nremotePort = 25565\n";
    assert_eq!(f.to_toml(), expected);
}

#[test]
fn toml_with_token_and_trimmed_ports() {
    let f = form("frp.example.com", " 7001 ", "  s3cret ", "web", "udp", "10.0.0.2", "+8080", "9000");
    let expected = "serverAddr = \"frp.example.com\"\nserverPort = 7001\n\nauth.method = \"token\"\nauth.token = \"s3cret\"\n\n[[proxies]]\nname = \"web\"\ntype = \"udp\"\nlocalIP = \"10.0.0.2\"\nlocalPort = 8080\nremotePort = 9000\n";
    assert_eq!(f.to_toml(), expected);
}

#[test]
fn toml_unreadable_ports_fall_back() {
    let f = form("a", "abc", "   ", "n", "tcp", "ip", "70000", "-1");
    let out = f.to_toml();
    assert!(out.contains("serverPort = 7000\n"));
    assert!(out.contains("localPort = 0\n"));
    assert!(out.contains("remotePort = 0\n"));
    assert!(!out.contains("auth."));
}

#[test]
fn toml_escapes_strings() {
    let f = form("a\"b\\c", "1", "t\"k", "n\\", "tcp", "ip", "1", "2");
    let out = f.to_toml();
    assert!(out.starts_with("serverAddr = \"a\\\"b\\\\c\"\n"));
    assert!(out.contains("auth.token = \"t\\\"k\"\n"));
    assert!(out.contains("name = \"n\\\\\"\n"));
}

#[test]
fn written_toml_parses_with_toml_crate() {
    let f = form("host \"x\"", "7000", "tok", "mc", "tcp", "127.0.0.1", "25565", "25566");
    let text = f.to_toml();
    let v: toml::Value = toml::from_str(&text).unwrap();
    assert_eq!(v["serverAddr"].as_str(), Some("host \"x\""));
    assert_eq!(v["serverPort"].as_integer(), Some(7000));
    assert_eq!(v["auth"]["token"].as_str(), Some("tok"));
    assert_eq!(v["proxies"][0]["remotePort"].as_integer(), Some(25566));
}

#[test]
fn escape_backslash_and_quote() {
    assert_eq!(escape_toml_string(r#"a\b"c"#), r#"a\\b\"c"#);
    assert_eq!(escape_toml_string("plain"), "plain");
    assert_eq!(escape_toml_string(""), "");
}

#[test]
fn normalize_proxy_type_cases() {
    assert_eq!(normalize_proxy_type("  UDP "), "udp");
    assert_eq!(normalize_proxy_type("udp"), "udp");
    assert_eq!(normalize_proxy_type("Udp\t"), "udp");
    assert_eq!(normalize_proxy_type("tcp"), "tcp");
    assert_eq!(normalize_proxy_type("http"), "tcp");
    assert_eq!(normalize_proxy_type("u d p"), "tcp");
    assert_eq!(normalize_proxy_type(""), "tcp");
}

#[test]
fn normalize_proxy_type_is_stable() {
    for v in ["UDP", " tcp ", "stcp", "", "udp"] {
        let once = normalize_proxy_type(v);
        assert_eq!(normalize_proxy_type(&once), once);
    }
}

#[test]
fn proxy_type_label_cases() {
    assert_eq!(proxy_type_label("udp"), "UDP");
    assert_eq!(proxy_type_label(" UdP"), "UDP");
    assert_eq!(proxy_type_label("tcp"), "TCP");
    assert_eq!(proxy_type_label("xtcp"), "TCP");
}

#[test]
fn apply_full_document() {
    let text = "serverAddr = \"1.2.3.4\"\nserverPort = 7100\nauth.method = \"token\"\nauth.token = \"abc\"\n\n[[proxies]]\nname = \"ssh\"\ntype = \"UDP\"\nlocalIP = \"192.168.1.5\"\nlocalPort = 22\nremotePort = 6000\n\n[[proxies]]\nname = \"second\"\n";
    let mut f = SimpleConfigForm::default();
    f.apply_from_toml(text);
    assert_eq!(
        fields(&f),
        vec!["1.2.3.4", "7100", "abc", "ssh", "udp", "192.168.1.5", "22", "6000"]
    );
}

#[test]
fn apply_invalid_text_keeps_form() {
    let mut f = form("a", "b", "c", "d", "e", "f", "g", "h");
    f.apply_from_toml("this is = = not toml [");
    assert_eq!(fields(&f), vec!["a", "b", "c", "d", "e", "f", "g", "h"]);
}

#[test]
fn apply_ignores_wrong_types_and_missing_keys() {
    let text = "serverAddr = 5\nserverPort = \"7000\"\n[auth]\nmethod = \"token\"\n";
    let mut f = form("a", "b", "c", "d", "e", "f", "g", "h");
    f.apply_from_toml(text);
    assert_eq!(fields(&f), vec!["a", "b", "c", "d", "e", "f", "g", "h"]);
}

#[test]
fn apply_negative_and_large_numbers() {
    let text = "serverPort = -12\n[[proxies]]\nlocalPort = 9223372036854775807\nremotePort = -9223372036854775808\n";
    let mut f = SimpleConfigForm::default();
    f.apply_from_toml(text);
    assert_eq!(f.server_port, "-12");
    assert_eq!(f.local_port, "9223372036854775807");
    assert_eq!(f.remote_port, "-9223372036854775808");
    assert_eq!(f.proxy_name, "minecraft");
}

#[test]
fn apply_empty_proxies_array_keeps_proxy_fields() {
    let mut f = SimpleConfigForm::default();
    f.apply_from_toml("proxies = []\nserverAddr = \"x\"\n");
    assert_eq!(f.server_addr, "x");
    assert_eq!(f.proxy_name, "minecraft");
}

#[test]
fn apply_document_built_by_hand() {
    let doc = TomlValue::Table(vec![
        ("serverAddr".to_string(), TomlValue::Str("h".to_string())),
        (
            "auth".to_string(),
            TomlValue::Table(vec![("token".to_string(), TomlValue::Str("t".to_string()))]),
        ),
        (
            "proxies".to_string(),
            TomlValue::Array(vec![TomlValue::Table(vec![
                ("type".to_string(), TomlValue::Str("UDP ".to_string())),
                ("localPort".to_string(), TomlValue::Integer(81)),
                ("localIP".to_string(), TomlValue::Boolean(true)),
            ])]),
        ),
    ]);
    let mut f = SimpleConfigForm::default();
    f.apply_document(&doc);
    assert_eq!(
        fields(&f),
        vec!["h", "7000", "t", "minecraft", "udp", "127.0.0.1", "81", "25565"]
    );
}

#[test]
fn apply_document_not_a_table_changes_nothing() {
    let mut f = SimpleConfigForm::default();
    f.apply_document(&TomlValue::Other);
    assert_eq!(fields(&f), fields(&SimpleConfigForm::default()));
}

#[test]
fn written_form_reads_back() {
    let f = form("srv", " 7002", " tok ", "p", "Udp", "1.1.1.1", "80", "x");
    let text = f.to_toml();
    let mut g = form("old", "old", "old", "old", "old", "old", "old", "old");
    g.apply_from_toml(&text);
    assert_eq!(fields(&g), vec!["srv", "7002", "tok", "p", "udp", "1.1.1.1", "80", "0"]);
}

#[test]
fn blank_token_reads_back_as_earlier_token() {
    let f = form("srv", "1", "  ", "p", "tcp", "ip", "1", "2");
    let mut g = SimpleConfigForm::default();
    g.auth_token = "kept".to_string();
    g.apply_from_toml(&f.to_toml());
    assert_eq!(g.auth_token, "kept");
}

#[test]
fn save_load_save_is_stable() {
    let f = form("srv \\ \"q\"", " +0080 ", " tok ", "p", "udp", "1.1.1.1", "x", "65535");
    let first = f.to_toml();
    let mut g = SimpleConfigForm::default();
    g.apply_from_toml(&first);
    assert_eq!(g.to_toml(), first);
}
