use uc2_node::config_file::{
    default_seed_for, hash_name, load_parsed, AdminAuthMode, AdminKeyEntry, AdminSection,
    ConfigError, CryptoConfig, CryptoSection, Endpoint, NodeConfig, NodeConfigFile, RotationPolicy,
    Setting, StartupOptions,
};
use uc2_node::node::boot::DEFAULT_JOURNAL_SEGMENT_BYTES;
use uc2_node::node::markers::PurgePolicy;
use uc2_node::obs::log::LogLevel;
use uc2_node::preflight::check_semantics;

const ROTATION: RotationPolicy = RotationPolicy { interval_ns: 3_600_000_000_000, bytes: 1 << 40 };

const MINIMAL: &str = r#"
id = 1
bind = "10.0.0.1:9100"
instance_dir = "/srv/uc2/n1"
app_id = "myapp"

[[members]]
id = 1
addr = "10.0.0.1:9100"

[crypto]
enabled = false

[admin]
auth = "none"
"#;

const MINIMAL_NO_CRYPTO_ADMIN: &str = r#"
id = 1
bind = "10.0.0.1:9100"
instance_dir = "/srv/uc2/n1"
app_id = "myapp"

[[members]]
id = 1
addr = "10.0.0.1:9100"
"#;

fn endpoint(s: &str) -> (u32, u16) {
    let (ip, port) = s.split_once(':').unwrap();
    let mut n: u32 = 0;
    for part in ip.split('.') {
        n = n * 256 + part.parse::<u32>().unwrap();
    }
    (n, port.parse().unwrap())
}

fn text(t: &toml::Table, key: &str) -> Option<String> {
    t.get(key).map(|v| v.as_str().unwrap().to_string())
}

fn number(t: &toml::Table, key: &str) -> Option<u64> {
    t.get(key).map(|v| v.as_integer().unwrap() as u64)
}

fn members(t: &toml::Table, key: &str) -> Vec<(u32, (u32, u16))> {
    match t.get(key) {
        None => Vec::new(),
        Some(list) => list
            .as_array()
            .unwrap()
            .iter()
            .map(|m| {
                let m = m.as_table().unwrap();
                (number(m, "id").unwrap() as u32, endpoint(&text(m, "addr").unwrap()))
            })
            .collect(),
    }
}

fn section<'a>(t: &'a toml::Table, key: &str) -> Option<&'a toml::Table> {
    t.get(key).map(|v| v.as_table().unwrap())
}

fn parse(body: &str) -> NodeConfigFile {
    let t: toml::Table = toml::from_str(body).unwrap();
    NodeConfigFile {
        id: number(&t, "id").unwrap() as u32,
        bind: endpoint(&text(&t, "bind").unwrap()),
        instance_dir: text(&t, "instance_dir").unwrap(),
        app_id: text(&t, "app_id").unwrap(),
        members: members(&t, "members"),
        learners: members(&t, "learners"),
        buffer_bytes: number(&t, "buffer_bytes").map(|n| n as usize),
        max_payload: number(&t, "max_payload").map(|n| n as usize),
        admission_bytes: number(&t, "admission_bytes"),
        election_timeout_min_ns: number(&t, "election_timeout_min_ns"),
        election_timeout_max_ns: number(&t, "election_timeout_max_ns"),
        seed: number(&t, "seed"),
        journal_segment_bytes: number(&t, "journal_segment_bytes"),
        purge_slack_bytes: section(&t, "purge")
            .map(|p| number(p, "below_snapshot_slack_bytes").unwrap()),
        crypto: section(&t, "crypto").map(|c| CryptoSection {
            enabled: c.get("enabled").unwrap().as_bool().unwrap(),
            key_path: text(c, "key_path"),
            allowlist_path: text(c, "allowlist_path"),
            rotation_interval_ns: number(c, "rotation_interval_ns"),
            rotation_bytes: number(c, "rotation_bytes"),
        }),
        admin: section(&t, "admin").map(|a| AdminSection {
            auth: match text(a, "auth").unwrap().as_str() {
                "none" => AdminAuthMode::NoAuth,
                "hmac" => AdminAuthMode::Hmac,
                other => panic!("{other}"),
            },
            keys: match a.get("keys") {
                None => Vec::new(),
                Some(keys) => keys
                    .as_array()
                    .unwrap()
                    .iter()
                    .map(|k| {
                        let k = k.as_table().unwrap();
                        AdminKeyEntry {
                            name: text(k, "name").unwrap(),
                            key_path: text(k, "key_path").unwrap(),
                        }
                    })
                    .collect(),
            },
            request_ttl_ms: number(a, "request_ttl_ms").unwrap_or(30_000),
        }),
        allow_volatile_fs: t.get("allow_volatile_fs").is_some_and(|v| v.as_bool().unwrap()),
        log_level: section(&t, "log").and_then(|l| text(l, "level")),
        metrics: section(&t, "metrics")
            .map(|m| text(m, "bind").map(|b| Endpoint::V4(endpoint(&b)))),
    }
}

fn load_str(body: &str) -> Result<(NodeConfig, StartupOptions), ConfigError> {
    load_parsed(parse(body), ROTATION)
}

fn refused_field(body: &str) -> &'static str {
    match load_str(body).unwrap_err() {
        ConfigError::Invalid { field, .. } => field.as_str(),
        other => panic!("expected Invalid, got {other:?}"),
    }
}

#[test]
fn minimal_config_maps_to_node_config_with_defaults() {
    let (cfg, opts) = load_str(
        r#"
id = 1
bind = "10.0.0.1:9100"
instance_dir = "/srv/uc2/n1"
app_id = "myapp"

[[members]]
id = 1
addr = "10.0.0.1:9100"

[[members]]
id = 2
addr = "10.0.0.2:9100"

[crypto]
enabled = false

[admin]
auth = "none"
"#,
    )
    .unwrap();
    assert!(!opts.allow_volatile_fs);
    assert_eq!(cfg.id, 1);
    assert_eq!(cfg.members.len(), 2);
    assert_eq!(cfg.app_id, "myapp");
    assert_eq!(cfg.buffer_bytes, 1 << 26);
    assert_eq!(cfg.journal_segment_bytes, DEFAULT_JOURNAL_SEGMENT_BYTES);
    assert!(matches!(cfg.purge, PurgePolicy::Disabled));
    assert!(matches!(cfg.crypto, CryptoConfig::Disabled));
    assert!(cfg.learners.is_empty());
}

#[test]
fn the_defaults_pass_preflight() {
    let (cfg, _opts) = load_str(MINIMAL).unwrap();
    check_semantics(&cfg).expect("stated defaults must be startable");
}

#[test]
fn the_other_defaults_are_exact() {
    let (cfg, opts) = load_str(MINIMAL).unwrap();
    assert_eq!(cfg.max_payload, 512);
    assert_eq!(cfg.admission_bytes, 256 * 1024);
    assert_eq!(cfg.election_timeout_min_ns, 150_000_000);
    assert_eq!(cfg.election_timeout_max_ns, 300_000_000);
    assert_eq!(cfg.journal_segment_bytes, 64 * 1024 * 1024);
    assert_eq!(cfg.seed, default_seed_for(1));
    assert_eq!(opts.admin.request_ttl_ms, 30_000);
}

#[test]
fn stated_values_override_every_default() {
    let body = format!(
        "buffer_bytes = 4096\nmax_payload = 7\nadmission_bytes = 8\nseed = 9\n\
         election_timeout_min_ns = 1\nelection_timeout_max_ns = 2\njournal_segment_bytes = 3\n{MINIMAL}"
    );
    let (cfg, _) = load_str(&body).unwrap();
    assert_eq!((cfg.buffer_bytes, cfg.max_payload, cfg.admission_bytes), (4096, 7, 8));
    assert_eq!((cfg.election_timeout_min_ns, cfg.election_timeout_max_ns), (1, 2));
    assert_eq!((cfg.journal_segment_bytes, cfg.seed), (3, 9));
}

#[test]
fn seed_defaults_per_node_and_differs_between_ids() {
    let a = default_seed_for(1);
    let b = default_seed_for(2);
    assert_ne!(a, b);
    assert_eq!(a, 1 ^ 0x9E37_79B9_7F4A_7C15);
    assert_eq!(default_seed_for(0), 1);
    let mut seeds: Vec<u64> = (0..1_000).map(default_seed_for).collect();
    seeds.sort();
    seeds.dedup();
    assert_eq!(seeds.len(), 1_000);
    assert_eq!(
        default_seed_for(u32::MAX),
        1 ^ (u32::MAX as u64).wrapping_mul(0x9E37_79B9_7F4A_7C15)
    );
}

#[test]
fn purge_and_crypto_sections_map_to_their_enums() {
    let (cfg, _opts) = load_str(
        r#"
id = 1
bind = "10.0.0.1:9100"
instance_dir = "/srv/uc2/n1"
app_id = "myapp"

[[members]]
id = 1
addr = "10.0.0.1:9100"

[purge]
below_snapshot_slack_bytes = 1048576

[crypto]
enabled = true
key_path = "/etc/uc2/node.key"
allowlist_path = "/etc/uc2/allowlist.toml"

[admin]
auth = "none"
"#,
    )
    .unwrap();
    assert!(matches!(cfg.purge, PurgePolicy::BelowSnapshot { slack_bytes: 1048576 }));
    match cfg.crypto {
        CryptoConfig::Enabled { ref key_path, ref allowlist_path, rotation } => {
            assert_eq!(key_path, "/etc/uc2/node.key");
            assert_eq!(allowlist_path, "/etc/uc2/allowlist.toml");
            assert_eq!(rotation.interval_ns, 3_600_000_000_000);
        }
        _ => panic!("crypto section must produce CryptoConfig::Enabled"),
    }
}

#[test]
fn stated_rotation_overrides_the_default() {
    let body = format!(
        "{MINIMAL_NO_CRYPTO_ADMIN}\n[crypto]\nenabled = true\nkey_path = \"k\"\n\
         allowlist_path = \"a\"\nrotation_bytes = 5\n[admin]\nauth = \"none\"\n"
    );
    let (cfg, _) = load_str(&body).unwrap();
    match cfg.crypto {
        CryptoConfig::Enabled { rotation, .. } => {
            assert_eq!(rotation, RotationPolicy { interval_ns: 3_600_000_000_000, bytes: 5 });
        }
        _ => panic!("enabled"),
    }
}

#[test]
fn allow_volatile_fs_defaults_to_false_and_is_settable() {
    let (_cfg, opts) = load_str(MINIMAL).unwrap();
    assert!(!opts.allow_volatile_fs, "production default must be refuse");
    let (_cfg, opts2) = load_str(&format!("allow_volatile_fs = true\n{MINIMAL}")).unwrap();
    assert!(opts2.allow_volatile_fs);
}

#[test]
fn log_and_metrics_sections_parse_into_obs_options() {
    let (_cfg, opts) = load_str(&format!(
        "{MINIMAL}\n[log]\nlevel = \"warn\"\n[metrics]\nbind = \"127.0.0.1:9601\"\n"
    ))
    .unwrap();
    assert_eq!(opts.obs.log_level, LogLevel::Warn);
    assert_eq!(opts.obs.metrics_bind, Some(Endpoint::V4(endpoint("127.0.0.1:9601"))));
}

#[test]
fn a_bare_metrics_section_gets_the_default_bind() {
    let (_cfg, opts) = load_str(&format!("{MINIMAL}\n[metrics]\n")).unwrap();
    assert_eq!(opts.obs.metrics_bind, Some(Endpoint::V4(endpoint("127.0.0.1:9600"))));
}

#[test]
fn a_metrics_bind_of_the_long_form_is_kept_whole() {
    let mut file = parse(MINIMAL);
    let bind = Endpoint::V6 { ip: 1, port: 9601, flowinfo: 3, scope_id: 4 };
    file.metrics = Some(Some(bind));
    let (_cfg, opts) = load_parsed(file, ROTATION).unwrap();
    assert_eq!(opts.obs.metrics_bind, Some(bind));
}

#[test]
fn absent_sections_mean_off_and_info() {
    let (_cfg, opts) = load_str(MINIMAL).unwrap();
    assert_eq!(opts.obs.log_level, LogLevel::Info);
    assert_eq!(opts.obs.metrics_bind, None);
}

#[test]
fn a_bad_log_level_is_a_refusal_naming_the_field() {
    let e = load_str(&format!("{MINIMAL}\n[log]\nlevel = \"verbose\"\n")).unwrap_err();
    let msg = e.message();
    assert!(msg.contains("log.level") && msg.contains("verbose"), "{msg}");
    assert!(matches!(e, ConfigError::Invalid { field: Setting::LogLevel, .. }));
}

#[test]
fn absent_crypto_section_is_an_explicit_choice_refusal() {
    let body = format!("{MINIMAL_NO_CRYPTO_ADMIN}\n[admin]\nauth = \"none\"\n");
    let err = load_str(&body).unwrap_err();
    assert!(matches!(err, ConfigError::CryptoChoiceRequired), "got: {err:?}");
    assert!(err.message().contains("[crypto]"), "{}", err.message());
}

#[test]
fn crypto_enabled_without_key_path_names_it() {
    let body =
        format!("{MINIMAL_NO_CRYPTO_ADMIN}\n[crypto]\nenabled = true\n[admin]\nauth = \"none\"\n");
    assert_eq!(refused_field(&body), "crypto.key_path");
}

#[test]
fn crypto_enabled_without_allowlist_path_names_it() {
    let body = format!(
        "{MINIMAL_NO_CRYPTO_ADMIN}\n[crypto]\nenabled = true\nkey_path = \"/etc/uc2/node.key\"\n\
         [admin]\nauth = \"none\"\n"
    );
    assert_eq!(refused_field(&body), "crypto.allowlist_path");
}

#[test]
fn crypto_disabled_with_paths_given_is_refused() {
    let body = format!(
        "{MINIMAL_NO_CRYPTO_ADMIN}\n[crypto]\nenabled = false\n\
         key_path = \"/etc/uc2/node.key\"\n[admin]\nauth = \"none\"\n"
    );
    assert_eq!(refused_field(&body), "crypto.enabled");
}

#[test]
fn absent_admin_section_is_an_explicit_choice_refusal() {
    let body = format!("{MINIMAL_NO_CRYPTO_ADMIN}\n[crypto]\nenabled = false\n");
    let err = load_str(&body).unwrap_err();
    assert!(matches!(err, ConfigError::AdminChoiceRequired), "got: {err:?}");
    assert!(err.message().contains("[admin]"), "{}", err.message());
}

#[test]
fn admin_hmac_with_no_keys_is_refused() {
    let body =
        format!("{MINIMAL_NO_CRYPTO_ADMIN}\n[crypto]\nenabled = false\n[admin]\nauth = \"hmac\"\n");
    assert_eq!(refused_field(&body), "admin.keys");
}

#[test]
fn admin_hmac_duplicate_key_names_are_refused() {
    let body = format!(
        "{MINIMAL_NO_CRYPTO_ADMIN}\n[crypto]\nenabled = false\n[admin]\nauth = \"hmac\"\n\
         keys = [{{ name = \"ops-alice\", key_path = \"/etc/uc2/admin/a.key\" }}, \
         {{ name = \"ops-alice\", key_path = \"/etc/uc2/admin/b.key\" }}]\n"
    );
    let msg = load_str(&body).unwrap_err().message();
    assert!(msg.contains("ops-alice"), "must name the duplicate key, got: {msg}");
    assert_eq!(
        msg,
        "duplicate name \"ops-alice\" in admin.keys — key names must be unique"
    );
    assert_eq!(refused_field(&body), "admin.keys");
}

#[test]
fn admin_hmac_empty_key_name_is_refused() {
    let body = format!(
        "{MINIMAL_NO_CRYPTO_ADMIN}\n[crypto]\nenabled = false\n[admin]\nauth = \"hmac\"\n\
         keys = [{{ name = \"\", key_path = \"/etc/uc2/admin/a.key\" }}]\n"
    );
    assert_eq!(refused_field(&body), "admin.keys");
    let detail = load_str(&body).unwrap_err().message();
    assert!(
        !detail.contains("  "),
        "the refusal message carries source indentation: {detail:?}"
    );
}

#[test]
fn admin_none_with_keys_is_refused() {
    let body = format!(
        "{MINIMAL_NO_CRYPTO_ADMIN}\n[crypto]\nenabled = false\n[admin]\nauth = \"none\"\n\
         keys = [{{ name = \"ops-alice\", key_path = \"/etc/uc2/admin/a.key\" }}]\n"
    );
    assert_eq!(refused_field(&body), "admin.keys");
}

#[test]
fn admin_ttl_below_1000_is_refused() {
    let body = format!(
        "{MINIMAL_NO_CRYPTO_ADMIN}\n[crypto]\nenabled = false\n[admin]\nauth = \"none\"\n\
         request_ttl_ms = 999\n"
    );
    assert_eq!(refused_field(&body), "admin.request_ttl_ms");
    assert_eq!(
        load_str(&body).unwrap_err().message(),
        "admin.request_ttl_ms must be >= 1000, got 999"
    );
}

#[test]
fn admin_hmac_maps_into_startup_options() {
    let body = format!(
        "{MINIMAL_NO_CRYPTO_ADMIN}\n[crypto]\nenabled = false\n[admin]\nauth = \"hmac\"\n\
         keys = [{{ name = \"ops-alice\", key_path = \"/etc/uc2/admin/alice.key\" }}]\n\
         request_ttl_ms = 5000\n"
    );
    let (_cfg, opts) = load_str(&body).unwrap();
    assert!(matches!(opts.admin.auth, AdminAuthMode::Hmac));
    assert_eq!(opts.admin.keys.len(), 1);
    assert_eq!(opts.admin.keys[0].name, "ops-alice");
    assert_eq!(opts.admin.request_ttl_ms, 5000);
}

#[test]
fn the_first_faulty_section_is_the_one_that_is_named() {
    // Crypto before admin before log.
    let body = format!("{MINIMAL_NO_CRYPTO_ADMIN}\n[log]\nlevel = \"verbose\"\n");
    assert!(matches!(load_str(&body), Err(ConfigError::CryptoChoiceRequired)));
    let body = format!("{body}\n[crypto]\nenabled = false\n");
    assert!(matches!(load_str(&body), Err(ConfigError::AdminChoiceRequired)));
}

#[test]
fn key_names_are_hashed_with_fnv1a() {
    assert_eq!(hash_name(""), 0xcbf2_9ce4_8422_2325);
    assert_eq!(hash_name("a"), 0xaf63_dc4c_8601_ec8c);
    assert_eq!(hash_name("foobar"), 0x8594_4171_f739_67e8);
}

#[test]
fn a_default_admin_section_authenticates_nothing() {
    let s = AdminSection::default();
    assert_eq!(s.auth, AdminAuthMode::NoAuth);
    assert!(s.keys.is_empty());
    assert_eq!(s.request_ttl_ms, 30_000);
}
