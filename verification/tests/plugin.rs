use vault_dynamic_db::authorization::{authorize_role, Refusal};
use vault_dynamic_db::config::{
    default_db_mount, default_max_cache_ttl_ms, AuthConfig, ConfigError, ConnectionConfig,
    IdentityMapping, TargetConfig, VaultConfig,
};
use vault_dynamic_db::credential::{CredentialError, IssuedCredential};
use vault_dynamic_db::identity_mapping::PluginIdentity;
use vault_dynamic_db::issuance::IssuanceAction;
use vault_dynamic_db::issue_call::{DbCreds, IssueEvent};
use vault_dynamic_db::kept_leases::KeptLeases;
use vault_dynamic_db::plugin::{cap_ttl_seconds, PluginClass, VaultDynamicDbPlugin, PLUGIN_ID};
use vault_dynamic_db::revoke_call::{RevokeAction, RevokeEvent};
use vault_dynamic_db::string_map::StringMap;

#[test]
fn cap_ttl_clamps_long_lease() {
    // 60_000 ms cap clamps a 3600 s lease to 60 s.
    assert_eq!(cap_ttl_seconds(3600, 60_000), 60);
}

#[test]
fn cap_ttl_uses_lease_when_below_cap() {
    assert_eq!(cap_ttl_seconds(45, 3_600_000), 45);
}

#[test]
fn cap_ttl_sub_second_cap_floors_to_one() {
    assert_eq!(cap_ttl_seconds(3600, 500), 1);
}

#[test]
fn cap_ttl_equal_units_is_noop() {
    assert_eq!(cap_ttl_seconds(3600, 3_600_000), 3600);
}

#[test]
fn cap_ttl_never_outlives_the_lease() {
    assert_eq!(cap_ttl_seconds(0, 3_600_000), 0);
    assert_eq!(cap_ttl_seconds(0, 500), 0);
    assert_eq!(cap_ttl_seconds(u64::MAX, u64::MAX), u64::MAX / 1000);
    assert_eq!(cap_ttl_seconds(u64::MAX, 86_400_000), 86_400);
    assert_eq!(cap_ttl_seconds(5, 1_999), 1);
}

fn target(mapping: IdentityMapping, vault_role: &str) -> TargetConfig {
    TargetConfig {
        vault_role: vault_role.to_owned(),
        identity_mapping: mapping,
        role_template: None,
        max_cache_ttl_ms: default_max_cache_ttl_ms(),
        revoke_on_evict: true,
        allowed_roles: None,
    }
}

fn config_with(name: &str, url: &str, config: TargetConfig) -> VaultConfig {
    let mut targets = StringMap::new();
    targets.insert(name.to_owned(), config);
    VaultConfig {
        url: url.to_owned(),
        auth: AuthConfig::Token {
            token: "s.abc123".to_owned(),
        },
        namespace: None,
        db_mount: default_db_mount(),
        targets,
        connection: ConnectionConfig::default(),
    }
}

fn minimal_cfg() -> VaultConfig {
    VaultConfig::parse(Ok(config_with(
        "orders-readonly",
        "https://vault.example.com:8200",
        target(IdentityMapping::Static, "orders-readonly"),
    )))
    .unwrap()
}

fn plugin_of(config: VaultConfig) -> VaultDynamicDbPlugin {
    VaultDynamicDbPlugin::from_config_json(Ok(config), "0.1.0", "vault_dynamic_db").unwrap()
}

#[test]
fn from_config_json_succeeds_with_minimal_token_config() {
    let plugin =
        VaultDynamicDbPlugin::from_validated_config(minimal_cfg(), "0.1.0", "vault_dynamic_db");
    assert_eq!(plugin.manifest.id, PLUGIN_ID);
    assert_eq!(plugin.config.targets.len(), 1);
}

#[test]
fn manifest_introduces_the_plugin() {
    let plugin = plugin_of(minimal_cfg());
    assert_eq!(plugin.manifest.id, "dev.mcpg.credential.vault-dynamic-db");
    assert_eq!(plugin.manifest.version, "0.1.0");
    assert_eq!(plugin.manifest.name, "Vault Dynamic Database Credentials");
    assert_eq!(plugin.manifest.plugin_class, PluginClass::CredentialIssuer);
    assert_eq!(plugin.manifest.protocol_version, "1.0");
    assert_eq!(plugin.manifest.module_path_prefix, "vault_dynamic_db");
    assert!(plugin.manifest.required_capabilities.is_empty());
}

#[test]
fn malformed_config_gives_no_plugin() {
    let err = VaultDynamicDbPlugin::from_config_json(
        Err("key must be a string at line 1 column 3".to_owned()),
        "0.1.0",
        "vault_dynamic_db",
    )
    .unwrap_err();
    assert!(matches!(err, ConfigError::InvalidJson(_)));
}

#[test]
fn empty_targets_give_no_plugin() {
    let mut bad = config_with("t", "https://x:8200", target(IdentityMapping::Static, "t"));
    bad.targets = StringMap::new();
    let err =
        VaultDynamicDbPlugin::from_config_json(Ok(bad), "0.1.0", "vault_dynamic_db").unwrap_err();
    assert!(matches!(err, ConfigError::EmptyTargets));
}

fn identity(trust: &str, subject: &str) -> PluginIdentity {
    PluginIdentity {
        kind: trust.to_owned(),
        trust_level: trust.to_owned(),
        subject_id: Some(subject.to_owned()),
        auth_provider: Some("okta".into()),
        issuer: Some("https://okta.example.com".into()),
        roles: vec![],
        groups: vec![],
        scopes: vec![],
        attributes: StringMap::new(),
    }
}

fn plugin_with_subject_target(allowed_roles: Option<Vec<&str>>) -> VaultDynamicDbPlugin {
    let mut t = target(IdentityMapping::SubjectId, "fallback");
    t.allowed_roles = allowed_roles.map(|l| l.iter().map(|r| (*r).to_owned()).collect());
    plugin_of(config_with("t", "https://vault.invalid:8200", t))
}

#[test]
fn issue_rejects_identity_derived_role_from_unverified_caller() {
    let plugin = plugin_with_subject_target(None);
    // header_asserted is spoofable → an identity-derived role must be
    // refused before any Vault call.
    let err = plugin
        .issue(&identity("header_asserted", "alice"), "t")
        .expect_err("unverified identity-derived role must be refused")
        .into_error();
    assert!(
        matches!(err, CredentialError::NotAuthorized { ref reason } if reason.contains("Verified trust")),
        "{err:?}"
    );
}

#[test]
fn issue_rejects_path_injecting_role_name() {
    let plugin = plugin_with_subject_target(None);
    // Verified caller, but the subject (used as the role) contains a
    // path separator → path-injection guard refuses it.
    let err = plugin
        .issue(&identity("verified", "../../sys/policies/acl"), "t")
        .expect_err("path-injecting role must be refused")
        .into_error();
    assert!(
        matches!(err, CredentialError::NotAuthorized { ref reason } if reason.contains("path-safe")),
        "{err:?}"
    );
}

#[test]
fn issue_rejects_role_outside_allowlist() {
    let plugin = plugin_with_subject_target(Some(vec!["orders-ro"]));
    // Verified caller, valid charset, but the resolved role isn't in
    // the target's allowed_roles.
    let err = plugin
        .issue(&identity("verified", "billing-admin"), "t")
        .expect_err("role outside allowlist must be refused")
        .into_error();
    assert!(
        matches!(err, CredentialError::NotAuthorized { ref reason } if reason.contains("allowed_roles")),
        "{err:?}"
    );
}

#[test]
fn refusals_are_worded() {
    let words = |refusal: Refusal| format!("{:?}", refusal.into_error());
    assert_eq!(
        words(Refusal::UnknownTarget {
            target: "x".to_owned()
        }),
        "Misconfigured { reason: \"unknown target: x\" }"
    );
    assert_eq!(
        words(Refusal::UntrustedIdentity {
            trust_level: "header_asserted".to_owned()
        }),
        "NotAuthorized { reason: \"identity-derived Vault role requires Verified trust; caller trust is `header_asserted`\" }"
    );
    assert_eq!(
        words(Refusal::InvalidRoleName),
        "NotAuthorized { reason: \"resolved Vault role name is not path-safe (allowed: A-Z a-z 0-9 _ -)\" }"
    );
    assert_eq!(
        words(Refusal::RoleNotAllowed),
        "NotAuthorized { reason: \"resolved Vault role is not in this target's allowed_roles\" }"
    );
    assert_eq!(
        words(Refusal::EmptyDerived {
            reason: "nothing".to_owned()
        }),
        "NotAuthorized { reason: \"nothing\" }"
    );
    assert_eq!(
        words(Refusal::SubstitutionFailed {
            field: "roles[0]".to_owned()
        }),
        "NotAuthorized { reason: \"identity template substitution failed: field `roles[0]` is None or out-of-bounds\" }"
    );
}

#[test]
fn unknown_target_is_misconfigured() {
    let plugin = plugin_of(minimal_cfg());
    let refusal = plugin
        .issue(&identity("verified", "alice"), "no-such-target")
        .unwrap_err();
    assert!(matches!(refusal, Refusal::UnknownTarget { ref target } if target == "no-such-target"));
}

#[test]
fn unverified_caller_still_gets_the_operator_role() {
    let mut anonymous = identity("unauthenticated", "");
    anonymous.subject_id = None;
    let t = target(IdentityMapping::SubjectId, "fallback");
    assert_eq!(authorize_role(&anonymous, &t).unwrap(), "fallback");
    let t = target(IdentityMapping::Static, "fixed");
    assert_eq!(authorize_role(&anonymous, &t).unwrap(), "fixed");
    assert_eq!(
        authorize_role(&identity("header_asserted", "alice"), &t).unwrap(),
        "fixed"
    );
}

#[test]
fn verified_caller_gets_the_role_they_select() {
    let mut t = target(IdentityMapping::SubjectId, "fallback");
    t.allowed_roles = Some(vec!["bob".to_owned(), "alice".to_owned()]);
    assert_eq!(
        authorize_role(&identity("verified", "alice"), &t).unwrap(),
        "alice"
    );
}

#[test]
fn allowlist_binds_the_fallback_but_not_a_static_role() {
    let mut anonymous = identity("verified", "");
    anonymous.subject_id = None;
    let mut t = target(IdentityMapping::SubjectId, "fallback");
    t.allowed_roles = Some(vec!["other".to_owned()]);
    assert!(matches!(
        authorize_role(&anonymous, &t),
        Err(Refusal::RoleNotAllowed)
    ));
    let mut t = target(IdentityMapping::Static, "fixed");
    t.allowed_roles = Some(vec!["other".to_owned()]);
    assert_eq!(authorize_role(&anonymous, &t).unwrap(), "fixed");
    t.vault_role = "not/a/role".to_owned();
    assert!(matches!(
        authorize_role(&anonymous, &t),
        Err(Refusal::InvalidRoleName)
    ));
}

#[test]
fn identities_without_a_role_are_refused() {
    let mut anonymous = identity("verified", "");
    anonymous.subject_id = None;
    assert!(matches!(
        authorize_role(&anonymous, &target(IdentityMapping::SubjectId, "")),
        Err(Refusal::EmptyDerived { .. })
    ));
    let mut t = target(IdentityMapping::Template, "fallback");
    t.role_template = Some("db-${identity.roles[0]}".to_owned());
    assert!(matches!(
        authorize_role(&anonymous, &t),
        Err(Refusal::SubstitutionFailed { field }) if field == "roles[0]"
    ));
}

fn db_creds(lease_duration: u64) -> DbCreds {
    DbCreds {
        username: "v-token-orders-1".to_owned(),
        password: "hunter2".to_owned(),
        lease_id: "database/creds/orders/abc".to_owned(),
        lease_duration,
    }
}

fn check_credential(credential: &IssuedCredential, ttl: u64) {
    assert_eq!(credential.value, None);
    assert_eq!(credential.parts.len(), 2);
    assert_eq!(credential.parts.get("username").unwrap(), "v-token-orders-1");
    assert_eq!(credential.parts.get("password").unwrap(), "hunter2");
    assert_eq!(credential.ttl_seconds, ttl);
    assert_eq!(credential.lease_id.as_deref(), Some("database/creds/orders/abc"));
    assert_eq!(credential.metadata.len(), 2);
    assert_eq!(credential.metadata.get("vault.role").unwrap(), "alice");
    assert_eq!(credential.metadata.get("vault.mount").unwrap(), "database");
}

fn run_to_credential(now: Option<&str>) -> IssuedCredential {
    let plugin = plugin_with_subject_target(None);
    let mut issuance = plugin.issue(&identity("verified", "alice"), "t").unwrap();
    let events = vec![
        IssueEvent::TokenObtained {
            token: "s.old".to_owned(),
        },
        IssueEvent::Replied { status: 401 },
        IssueEvent::TokenObtained {
            token: "s.new".to_owned(),
        },
        IssueEvent::Replied { status: 200 },
        IssueEvent::CredsRead {
            creds: db_creds(86_400),
        },
    ];
    let mut kept = KeptLeases::new();
    let mut sent = 0;
    for event in events {
        let action = match now {
            Some(now) => issuance.step_at(&plugin, &mut kept, event, now.to_owned()),
            None => issuance.step(&plugin, &mut kept, event),
        };
        match action {
            IssuanceAction::Send { request } => {
                assert_eq!(request.url, "https://vault.invalid:8200/v1/database/creds/alice");
                sent += 1;
            }
            IssuanceAction::Finish { result } => {
                assert_eq!(sent, 2);
                return result.unwrap();
            }
            IssuanceAction::Reauthenticate => assert_eq!(sent, 1),
            IssuanceAction::ReadCreds => assert_eq!(sent, 2),
            IssuanceAction::ReadText => panic!("no refusal to read"),
        }
    }
    panic!("not finished")
}

#[test]
fn issuance_ends_in_a_credential() {
    let credential = run_to_credential(Some("2026-01-02T03:04:05Z"));
    check_credential(&credential, 3600);
    assert_eq!(credential.issued_at, "2026-01-02T03:04:05Z");
}

#[test]
fn issuance_stamps_the_time_now() {
    let before = chrono::Utc::now().to_rfc3339_opts(chrono::SecondsFormat::Secs, true);
    let credential = run_to_credential(None);
    let after = chrono::Utc::now().to_rfc3339_opts(chrono::SecondsFormat::Secs, true);
    check_credential(&credential, 3600);
    assert_eq!(credential.issued_at.len(), 20);
    assert!(credential.issued_at.ends_with('Z'));
    assert!(before <= credential.issued_at && credential.issued_at <= after);
}

#[test]
fn short_lease_shortens_the_cache_time() {
    let plugin = plugin_with_subject_target(None);
    let plan = plugin
        .plan_issue(&identity("verified", "alice"), "t")
        .unwrap();
    assert_eq!(plan.role, "alice");
    assert_eq!(plan.max_cache_ttl_ms, 3_600_000);
    assert!(plan.revoke_on_evict);
    let credential = plugin.credential_issued_at(&plan, db_creds(45), "now".to_owned());
    check_credential(&credential, 45);
}

#[test]
fn issuance_ends_in_vaults_refusal() {
    let plugin = plugin_with_subject_target(None);
    let mut issuance = plugin.issue(&identity("verified", "alice"), "t").unwrap();
    let mut kept = KeptLeases::new();
    issuance.step(
        &plugin,
        &mut kept,
        IssueEvent::TokenObtained {
            token: "s.1".to_owned(),
        },
    );
    assert!(matches!(
        issuance.step(&plugin, &mut kept, IssueEvent::Replied { status: 429 }),
        IssuanceAction::ReadText
    ));
    match issuance.step(
        &plugin,
        &mut kept,
        IssueEvent::TextRead {
            text: "slow down".to_owned(),
        },
    ) {
        IssuanceAction::Finish {
            result: Err(CredentialError::Throttled { reason }),
        } => assert_eq!(reason, "vault: rate limited (slow down)"),
        other => panic!("{other:?}"),
    }
}

#[test]
fn revocation_begins_with_its_lease() {
    let plugin = plugin_of(minimal_cfg());
    let mut kept = KeptLeases::new();
    let call = plugin.revoke(&mut kept, "lease-1").unwrap();
    assert_eq!(call.lease_id, "lease-1");
    assert!(!call.retried);
}

/// A plugin with one target that revokes on eviction and one that does not.
fn plugin_with_both_switches() -> VaultDynamicDbPlugin {
    let mut config = config_with(
        "revoked",
        "https://vault.invalid:8200",
        target(IdentityMapping::Static, "ro"),
    );
    let mut left_alone = target(IdentityMapping::Static, "ro");
    left_alone.revoke_on_evict = false;
    config.targets.insert("left-alone".to_owned(), left_alone);
    plugin_of(config)
}

/// Issues a credential of `name` with the given lease; gives the credential's lease.
fn issue_lease(
    plugin: &VaultDynamicDbPlugin,
    kept: &mut KeptLeases,
    name: &str,
    lease: &str,
) -> String {
    let mut issuance = plugin.issue(&identity("verified", "alice"), name).unwrap();
    assert_eq!(issuance.plan.revoke_on_evict, name == "revoked");
    issuance.step(
        plugin,
        kept,
        IssueEvent::TokenObtained {
            token: "s.1".to_owned(),
        },
    );
    issuance.step(plugin, kept, IssueEvent::Replied { status: 200 });
    assert!(!kept.contains(lease));
    let mut creds = db_creds(60);
    creds.lease_id = lease.to_owned();
    match issuance.step(plugin, kept, IssueEvent::CredsRead { creds }) {
        IssuanceAction::Finish {
            result: Ok(credential),
        } => credential.lease_id.unwrap(),
        other => panic!("{other:?}"),
    }
}

#[test]
fn evicted_lease_is_left_alone_with_the_switch_off() {
    let plugin = plugin_with_both_switches();
    let mut kept = KeptLeases::new();
    let lease = issue_lease(&plugin, &mut kept, "left-alone", "lease-off");
    assert_eq!(lease, "lease-off");
    assert!(kept.contains("lease-off"));
    issue_lease(&plugin, &mut kept, "left-alone", "lease-off-2");
    issue_lease(&plugin, &mut kept, "revoked", "lease-on");
    assert!(plugin.revoke(&mut kept, "lease-on").is_some());
    assert!(plugin.revoke(&mut kept, "lease-off").is_none());
    assert!(!kept.contains("lease-off"));
    assert!(kept.contains("lease-off-2"));
}

#[test]
fn evicted_lease_is_revoked_with_the_switch_on() {
    let plugin = plugin_with_both_switches();
    let mut kept = KeptLeases::new();
    let lease = issue_lease(&plugin, &mut kept, "revoked", "lease-on");
    assert!(!kept.contains("lease-on"));
    issue_lease(&plugin, &mut kept, "left-alone", "lease-off");
    let mut call = plugin.revoke(&mut kept, &lease).unwrap();
    match call.step(
        &plugin.client,
        RevokeEvent::TokenObtained {
            token: "s.1".to_owned(),
        },
    ) {
        RevokeAction::Send { request } => {
            assert_eq!(request.url, "https://vault.invalid:8200/v1/sys/leases/revoke");
            assert_eq!(
                request.body,
                Some(vec![("lease_id".to_owned(), "lease-on".to_owned())])
            );
        }
        other => panic!("{other:?}"),
    }
    assert!(kept.contains("lease-off"));
}

#[test]
fn kept_leases_are_counted() {
    let mut kept = KeptLeases::new();
    kept.insert("a");
    kept.insert("b");
    kept.insert("a");
    assert!(kept.contains("a") && kept.contains("b") && !kept.contains("c"));
    assert!(kept.remove("a"));
    assert!(kept.contains("a"));
    assert!(kept.remove("a"));
    assert!(!kept.remove("a"));
    assert!(!kept.contains("a") && kept.contains("b"));
    kept.record("c", false);
    kept.record("c", false);
    kept.record("b", true);
    assert!(kept.contains("c") && !kept.contains("b"));
    kept.record("c", true);
    assert!(!kept.contains("c"));
}

#[test]
fn credentials_without_a_lease_are_left_alone_one_by_one() {
    let plugin = plugin_with_both_switches();
    let mut kept = KeptLeases::new();
    kept.record("", false);
    kept.record("", false);
    assert!(plugin.revoke(&mut kept, "").is_none());
    assert!(plugin.revoke(&mut kept, "").is_none());
    assert!(plugin.revoke(&mut kept, "").is_some());
}
