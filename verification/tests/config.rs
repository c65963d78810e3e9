use exum::config::{
    detect_env, env_config_file, env_placeholder, inject_env_var, ApplicationConfig,
};
use exum::value::{copy_value, find_key, get_value, inject_env_vars, merge_toml, ConfigValue};

fn text(s: &str) -> ConfigValue {
    ConfigValue::Text(s.to_string())
}

fn table(entries: Vec<(&str, ConfigValue)>) -> ConfigValue {
    ConfigValue::Table(entries.into_iter().map(|(k, v)| (k.to_string(), v)).collect())
}

#[test]
fn default_binds_every_interface_on_8080() {
    let config = ApplicationConfig::default();
    assert_eq!(config.addr, [0, 0, 0, 0]);
    assert_eq!(config.port, 8080);
    assert_eq!(ApplicationConfig::with_defaults(None, None), config);
    assert_eq!(
        ApplicationConfig::with_defaults(Some([127, 0, 0, 1]), None),
        ApplicationConfig { addr: [127, 0, 0, 1], port: 8080 }
    );
    assert_eq!(
        ApplicationConfig::with_defaults(None, Some(3000)),
        ApplicationConfig { addr: [0, 0, 0, 0], port: 3000 }
    );
}

#[test]
fn environment_name() {
    assert_eq!(detect_env(Some("staging".to_string()), true), "staging");
    assert_eq!(detect_env(Some("".to_string()), false), "");
    assert_eq!(detect_env(None, true), "dev");
    assert_eq!(detect_env(None, false), "prod");
    assert_eq!(env_config_file("dev"), "config.dev.toml");
}

#[test]
fn placeholders() {
    assert_eq!(env_placeholder("${HOME}"), Some("HOME".to_string()));
    assert_eq!(env_placeholder("${}"), Some("".to_string()));
    assert_eq!(env_placeholder("${"), None);
    assert_eq!(env_placeholder("$}"), None);
    assert_eq!(env_placeholder("${A}b"), None);
    assert_eq!(env_placeholder(" ${A}"), None);
    assert_eq!(env_placeholder(""), None);
    assert_eq!(inject_env_var("${A}".to_string(), Some("1".to_string())), "1");
    assert_eq!(inject_env_var("${A}".to_string(), None), "${A}");
    assert_eq!(inject_env_var("plain".to_string(), Some("1".to_string())), "plain");
}

#[test]
fn tables_merge_key_by_key() {
    let base = table(vec![
        ("port", ConfigValue::Integer(8080)),
        ("db", table(vec![("host", text("localhost")), ("pool", ConfigValue::Integer(4))])),
        ("tags", ConfigValue::Array(vec![text("a"), text("b")])),
    ]);
    let other = table(vec![
        ("db", table(vec![("host", text("db.internal")), ("tls", ConfigValue::Boolean(true))])),
        ("tags", ConfigValue::Array(vec![text("c")])),
        ("name", text("svc")),
        ("port", table(vec![("http", ConfigValue::Integer(80))])),
    ]);
    let merged = merge_toml(base, &other);
    assert_eq!(
        merged,
        table(vec![
            ("port", table(vec![("http", ConfigValue::Integer(80))])),
            (
                "db",
                table(vec![
                    ("host", text("db.internal")),
                    ("pool", ConfigValue::Integer(4)),
                    ("tls", ConfigValue::Boolean(true)),
                ])
            ),
            ("tags", ConfigValue::Array(vec![text("c")])),
            ("name", text("svc")),
        ])
    );
}

#[test]
fn other_value_replaces_anything_but_a_table_pair() {
    assert_eq!(merge_toml(text("a"), &ConfigValue::Integer(1)), ConfigValue::Integer(1));
    assert_eq!(merge_toml(table(vec![("a", text("x"))]), &text("b")), text("b"));
    assert_eq!(
        merge_toml(ConfigValue::Float(1), &table(vec![("a", text("x"))])),
        table(vec![("a", text("x"))])
    );
    assert_eq!(merge_toml(table(vec![("a", text("x"))]), &table(vec![])), table(vec![("a", text("x"))]));
}

#[test]
fn value_by_dotted_path() {
    let root = table(vec![
        ("server", table(vec![("port", ConfigValue::Integer(9)), ("", text("empty key"))])),
        ("list", ConfigValue::Array(vec![text("x")])),
        ("", text("root empty key")),
    ]);
    assert_eq!(get_value(&root, "server.port"), Some(&ConfigValue::Integer(9)));
    assert_eq!(get_value(&root, "server"), get_value(&root, "server"));
    assert_eq!(get_value(&root, "server.host"), None);
    assert_eq!(get_value(&root, "server.port.x"), None);
    assert_eq!(get_value(&root, "list.0"), None);
    assert_eq!(get_value(&root, ""), Some(&text("root empty key")));
    assert_eq!(get_value(&root, "server."), Some(&text("empty key")));
    assert_eq!(get_value(&text("x"), "a"), None);
    assert_eq!(find_key(&vec![("a".to_string(), text("1")), ("b".to_string(), text("2"))], "b"), Some(1));
}

#[test]
fn variables_are_injected_at_any_depth() {
    let vars = vec![
        ("DB_URL".to_string(), "postgres://x".to_string()),
        ("TOKEN".to_string(), "t0".to_string()),
        ("TOKEN".to_string(), "t1".to_string()),
    ];
    let value = table(vec![
        ("db", table(vec![("url", text("${DB_URL}")), ("user", text("${DB_USER}"))])),
        ("tokens", ConfigValue::Array(vec![text("${TOKEN}"), text("x${TOKEN}"), ConfigValue::Integer(3)])),
        ("when", ConfigValue::Datetime("${TOKEN}".to_string())),
    ]);
    assert_eq!(copy_value(&value), value);
    assert_eq!(
        inject_env_vars(&value, &vars),
        table(vec![
            ("db", table(vec![("url", text("postgres://x")), ("user", text("${DB_USER}"))])),
            ("tokens", ConfigValue::Array(vec![text("t0"), text("x${TOKEN}"), ConfigValue::Integer(3)])),
            ("when", ConfigValue::Datetime("${TOKEN}".to_string())),
        ])
    );
}
