use vault_dynamic_db::config::{
    default_approle_mount, default_connect_timeout_ms, default_db_mount, default_max_cache_ttl_ms,
    default_operation_timeout_ms, default_true, AuthConfig, ConfigError, ConnectionConfig,
    IdentityMapping, TargetConfig, VaultConfig,
};
use vault_dynamic_db::string_map::StringMap;

fn target(vault_role: &str) -> TargetConfig {
    TargetConfig {
        vault_role: vault_role.to_owned(),
        identity_mapping: IdentityMapping::default(),
        role_template: None,
        max_cache_ttl_ms: default_max_cache_ttl_ms(),
        revoke_on_evict: default_true(),
        allowed_roles: None,
    }
}

fn targets(list: Vec<(&str, TargetConfig)>) -> StringMap<TargetConfig> {
    let mut map = StringMap::new();
    for (name, config) in list {
        map.insert(name.to_owned(), config);
    }
    map
}

fn token(token: &str) -> AuthConfig {
    AuthConfig::Token {
        token: token.to_owned(),
    }
}

fn approle(role_id: &str, secret_id: &str, mount_path: &str) -> AuthConfig {
    AuthConfig::Approle {
        role_id: role_id.to_owned(),
        secret_id: secret_id.to_owned(),
        mount_path: mount_path.to_owned(),
    }
}

fn minimal() -> VaultConfig {
    VaultConfig {
        url: "https://vault.example.com:8200".to_owned(),
        auth: token("s.abc123"),
        namespace: None,
        db_mount: default_db_mount(),
        targets: targets(vec![("orders-readonly", target("orders-readonly"))]),
        connection: ConnectionConfig::default(),
    }
}

fn with_target(config: TargetConfig) -> VaultConfig {
    let mut v = minimal();
    v.targets = targets(vec![("orders-readonly", config)]);
    v
}

#[test]
fn parses_minimal() {
    let cfg = VaultConfig::parse(Ok(minimal())).unwrap();
    assert_eq!(cfg.db_mount, "database");
    assert!(cfg.targets.contains_key("orders-readonly"));
}

#[test]
fn rejects_empty_url() {
    let mut v = minimal();
    v.url = "".to_owned();
    assert!(matches!(
        VaultConfig::parse(Ok(v)).unwrap_err(),
        ConfigError::EmptyUrl
    ));
}

#[test]
fn rejects_unknown_url_scheme() {
    let mut v = minimal();
    v.url = "file:///vault".to_owned();
    assert!(matches!(
        VaultConfig::parse(Ok(v)).unwrap_err(),
        ConfigError::InvalidUrlScheme
    ));
}

#[test]
fn rejects_empty_token() {
    let mut v = minimal();
    v.auth = token("");
    assert!(matches!(
        VaultConfig::parse(Ok(v)).unwrap_err(),
        ConfigError::EmptyToken
    ));
}

#[test]
fn approle_auth_roundtrip() {
    let v = VaultConfig {
        url: "https://vault.example.com:8200".to_owned(),
        auth: approle("rid-abc", "sid-xyz", &default_approle_mount()),
        namespace: None,
        db_mount: default_db_mount(),
        targets: targets(vec![("x", target("x"))]),
        connection: ConnectionConfig::default(),
    };
    let cfg = VaultConfig::parse(Ok(v)).unwrap();
    match cfg.auth {
        AuthConfig::Approle {
            role_id,
            secret_id,
            mount_path,
        } => {
            assert_eq!(role_id, "rid-abc");
            assert_eq!(secret_id, "sid-xyz");
            assert_eq!(mount_path, "approle");
        }
        _ => panic!("expected Approle"),
    }
}

#[test]
fn rejects_static_without_vault_role() {
    let v = with_target(target(""));
    assert!(matches!(
        VaultConfig::parse(Ok(v)).unwrap_err(),
        ConfigError::StaticTargetMissingRole { .. }
    ));
}

#[test]
fn rejects_template_without_template() {
    let v = with_target(TargetConfig {
        identity_mapping: IdentityMapping::Template,
        ..target("fallback")
    });
    assert!(matches!(
        VaultConfig::parse(Ok(v)).unwrap_err(),
        ConfigError::TemplateTargetMissingTemplate { .. }
    ));
}

#[test]
fn rejects_zero_ttl() {
    let v = with_target(TargetConfig {
        max_cache_ttl_ms: 0,
        ..target("orders-readonly")
    });
    assert!(matches!(
        VaultConfig::parse(Ok(v)).unwrap_err(),
        ConfigError::InvalidMaxCacheTtl { .. }
    ));
}

#[test]
fn rejects_oversized_ttl() {
    let v = with_target(TargetConfig {
        max_cache_ttl_ms: 86_400_001,
        ..target("orders-readonly")
    });
    assert!(matches!(
        VaultConfig::parse(Ok(v)).unwrap_err(),
        ConfigError::InvalidMaxCacheTtl { .. }
    ));
}

#[test]
fn accepts_the_ends_of_the_ttl_range() {
    for ttl in [1u64, 86_400_000] {
        let v = with_target(TargetConfig {
            max_cache_ttl_ms: ttl,
            ..target("orders-readonly")
        });
        assert!(v.validate().is_ok());
    }
}

#[test]
fn undecodable_text_is_invalid_json() {
    let err = VaultConfig::parse(Err("expected value at line 1 column 3".to_owned())).unwrap_err();
    assert!(matches!(err, ConfigError::InvalidJson(_)));
    assert_eq!(
        err.message(),
        "invalid credential.vault-dynamic-db config JSON: expected value at line 1 column 3"
    );
}

#[test]
fn blank_url_and_mount_are_empty() {
    let mut v = minimal();
    v.url = " \t\u{3000}\n".to_owned();
    assert!(matches!(v.validate(), Err(ConfigError::EmptyUrl)));
    let mut v = minimal();
    v.db_mount = "\u{a0} ".to_owned();
    assert!(matches!(v.validate(), Err(ConfigError::EmptyDbMount)));
    let mut v = minimal();
    v.url = " https://vault".to_owned();
    assert!(matches!(v.validate(), Err(ConfigError::InvalidUrlScheme)));
    let mut v = minimal();
    v.url = "http://vault".to_owned();
    assert!(v.validate().is_ok());
}

#[test]
fn no_targets_is_an_error() {
    let mut v = minimal();
    v.targets = StringMap::new();
    assert!(matches!(v.validate(), Err(ConfigError::EmptyTargets)));
}

#[test]
fn approle_settings_must_be_complete() {
    let mut v = minimal();
    v.auth = approle("", "s", "m");
    assert!(matches!(v.validate(), Err(ConfigError::EmptyRoleId)));
    v.auth = approle("r", "", "m");
    assert!(matches!(v.validate(), Err(ConfigError::EmptySecretId)));
    v.auth = approle("r", "s", "  ");
    assert!(matches!(
        v.validate(),
        Err(ConfigError::EmptyApproleMountPath)
    ));
    v.auth = approle("r", "s", "m");
    assert!(v.validate().is_ok());
}

#[test]
fn empty_template_counts_as_missing() {
    let v = with_target(TargetConfig {
        identity_mapping: IdentityMapping::Template,
        role_template: Some("".to_owned()),
        ..target("fallback")
    });
    assert!(matches!(
        v.validate(),
        Err(ConfigError::TemplateTargetMissingTemplate { .. })
    ));
}

#[test]
fn derived_mappings_may_go_without_a_fallback() {
    for mapping in [IdentityMapping::SubjectId, IdentityMapping::FromRole] {
        let v = with_target(TargetConfig {
            identity_mapping: mapping,
            ..target("")
        });
        assert!(v.validate().is_ok());
    }
}

#[test]
fn first_invalid_allowed_role_is_named() {
    let v = with_target(TargetConfig {
        allowed_roles: Some(vec!["ok".to_owned(), "a/b".to_owned(), "c d".to_owned()]),
        ..target("orders-readonly")
    });
    match v.validate().unwrap_err() {
        ConfigError::InvalidAllowedRole { name, role } => {
            assert_eq!(name, "orders-readonly");
            assert_eq!(role, "a/b");
        }
        other => panic!("{other:?}"),
    }
}

#[test]
fn lowest_invalid_target_is_reported() {
    let mut v = minimal();
    v.targets = targets(vec![
        ("zeta", target("")),
        ("beta", target("")),
        ("alpha", target("ok")),
    ]);
    match v.validate().unwrap_err() {
        ConfigError::StaticTargetMissingRole { name } => assert_eq!(name, "beta"),
        other => panic!("{other:?}"),
    }
}

#[test]
fn defaults_are_the_documented_ones() {
    assert_eq!(default_db_mount(), "database");
    assert_eq!(default_approle_mount(), "approle");
    assert_eq!(default_max_cache_ttl_ms(), 3_600_000);
    assert!(default_true());
    assert_eq!(default_connect_timeout_ms(), 5000);
    assert_eq!(default_operation_timeout_ms(), 10_000);
    let connection = ConnectionConfig::default();
    assert_eq!(connection.connect_timeout_ms, 5000);
    assert_eq!(connection.operation_timeout_ms, 10_000);
    assert_eq!(IdentityMapping::default(), IdentityMapping::Static);
}

#[test]
fn messages_name_what_is_wrong() {
    let cases = vec![
        (ConfigError::EmptyUrl, "credential.vault-dynamic-db: url is empty"),
        (
            ConfigError::InvalidUrlScheme,
            "credential.vault-dynamic-db: url must start with http:// or https://",
        ),
        (
            ConfigError::EmptyDbMount,
            "credential.vault-dynamic-db: db_mount is empty",
        ),
        (
            ConfigError::EmptyTargets,
            "credential.vault-dynamic-db: targets must be non-empty",
        ),
        (
            ConfigError::StaticTargetMissingRole {
                name: "t".to_owned(),
            },
            "credential.vault-dynamic-db: target `t` has identity_mapping=static but vault_role is empty",
        ),
        (
            ConfigError::TemplateTargetMissingTemplate {
                name: "t".to_owned(),
            },
            "credential.vault-dynamic-db: target `t` has identity_mapping=template but role_template is missing",
        ),
        (
            ConfigError::InvalidMaxCacheTtl {
                name: "t".to_owned(),
                ttl: 86_400_001,
            },
            "credential.vault-dynamic-db: target `t` has max_cache_ttl_ms=86400001; must be 1..=86_400_000 (1 ms to 1 day)",
        ),
        (
            ConfigError::EmptyToken,
            "credential.vault-dynamic-db: auth.token is empty",
        ),
        (
            ConfigError::EmptyRoleId,
            "credential.vault-dynamic-db: auth.role_id is empty",
        ),
        (
            ConfigError::EmptySecretId,
            "credential.vault-dynamic-db: auth.secret_id is empty",
        ),
        (
            ConfigError::EmptyApproleMountPath,
            "credential.vault-dynamic-db: auth.mount_path is empty",
        ),
        (
            ConfigError::InvalidAllowedRole {
                name: "t".to_owned(),
                role: "a/b".to_owned(),
            },
            "credential.vault-dynamic-db: target `t` allowed_roles entry `a/b` is not a valid Vault role name (allowed: A-Z a-z 0-9 _ -, 1..=128 chars)",
        ),
    ];
    for (error, words) in cases {
        assert_eq!(error.message(), words);
    }
}

#[test]
fn a_cloned_configuration_is_as_valid() {
    let v = minimal();
    let copy = v.clone();
    assert_eq!(copy.url, v.url);
    assert_eq!(copy.targets.len(), 1);
    assert_eq!(copy.targets.key_at(0), "orders-readonly");
    assert_eq!(copy.targets.value_at(0), v.targets.value_at(0));
    assert_eq!(copy.auth, v.auth);
    assert!(copy.validate().is_ok());
}
