use vault_dynamic_db::config::{IdentityMapping, TargetConfig};
use vault_dynamic_db::identity_mapping::{
    is_valid_role_name, parse_indexed, resolve_field, resolve_role, substitute, PluginIdentity,
    Resolution,
};
use vault_dynamic_db::string_map::StringMap;

fn ident(subject: Option<&str>) -> PluginIdentity {
    let mut attrs = StringMap::new();
    attrs.insert("department".into(), "platform".into());
    attrs.insert("team".into(), "secops".into());
    PluginIdentity {
        kind: "verified".into(),
        trust_level: "verified".into(),
        subject_id: subject.map(|s| s.to_owned()),
        auth_provider: Some("okta".into()),
        issuer: Some("https://okta.example.com".into()),
        roles: vec!["admin".into(), "auditor".into()],
        groups: vec!["sec".into()],
        scopes: vec![],
        attributes: attrs,
    }
}

fn target(mapping: IdentityMapping, vault_role: &str, template: Option<&str>) -> TargetConfig {
    TargetConfig {
        vault_role: vault_role.into(),
        identity_mapping: mapping,
        role_template: template.map(|s| s.to_owned()),
        max_cache_ttl_ms: 60,
        revoke_on_evict: true,
        allowed_roles: None,
    }
}

/// Assert `r` is `Role { role, identity_derived }`.
fn assert_role(r: &Resolution, want_role: &str, want_derived: bool) {
    match r {
        Resolution::Role {
            role,
            identity_derived,
        } => {
            assert_eq!(role, want_role, "role");
            assert_eq!(*identity_derived, want_derived, "identity_derived");
        }
        other => panic!("expected Role, got {other:?}"),
    }
}

fn assert_failed(r: &Resolution, want: &str) {
    match r {
        Resolution::SubstitutionFailed { field } => assert_eq!(field, want),
        other => panic!("expected SubstitutionFailed, got {other:?}"),
    }
}

fn assert_empty(r: &Resolution, want: &str) {
    match r {
        Resolution::EmptyDerived { reason } => assert_eq!(reason, want),
        other => panic!("expected EmptyDerived, got {other:?}"),
    }
}

#[test]
fn static_returns_configured_role() {
    let r = resolve_role(
        &ident(Some("alice")),
        &target(IdentityMapping::Static, "ro", None),
    );
    assert_role(&r, "ro", false);
}

#[test]
fn subject_id_returns_caller_subject() {
    let r = resolve_role(
        &ident(Some("alice")),
        &target(IdentityMapping::SubjectId, "fallback", None),
    );
    assert_role(&r, "alice", true);
}

#[test]
fn subject_id_falls_back_when_anonymous() {
    let r = resolve_role(
        &ident(None),
        &target(IdentityMapping::SubjectId, "fallback", None),
    );
    // Fallback to the operator's static role is NOT identity-derived.
    assert_role(&r, "fallback", false);
}

#[test]
fn subject_id_empty_derived_when_no_fallback() {
    let r = resolve_role(&ident(None), &target(IdentityMapping::SubjectId, "", None));
    assert!(matches!(r, Resolution::EmptyDerived { .. }));
    assert_empty(&r, "identity has no subject_id and no static fallback");
}

#[test]
fn from_role_returns_first() {
    let r = resolve_role(
        &ident(Some("alice")),
        &target(IdentityMapping::FromRole, "fallback", None),
    );
    assert_role(&r, "admin", true);
}

#[test]
fn from_role_falls_back_when_empty() {
    let mut id = ident(Some("alice"));
    id.roles.clear();
    let r = resolve_role(&id, &target(IdentityMapping::FromRole, "fallback", None));
    assert_role(&r, "fallback", false);
}

#[test]
fn template_substitutes_attribute() {
    let r = resolve_role(
        &ident(Some("alice")),
        &target(
            IdentityMapping::Template,
            "",
            Some("${identity.attributes.department}-readonly"),
        ),
    );
    assert_role(&r, "platform-readonly", true);
}

#[test]
fn template_substitutes_indexed_role() {
    let r = resolve_role(
        &ident(Some("alice")),
        &target(
            IdentityMapping::Template,
            "",
            Some("${identity.roles[1]}-rw"),
        ),
    );
    assert_role(&r, "auditor-rw", true);
}

#[test]
fn role_name_validation_rejects_path_separators() {
    assert!(is_valid_role_name("orders-readonly"));
    assert!(is_valid_role_name("svc_acct_1"));
    assert!(!is_valid_role_name(""));
    assert!(!is_valid_role_name("../../sys/policies"));
    assert!(!is_valid_role_name("a/b"));
    assert!(!is_valid_role_name("role with space"));
    assert!(!is_valid_role_name(&"x".repeat(129)));
}

#[test]
fn template_substitution_failure_surfaces_field_name() {
    let r = resolve_role(
        &ident(None),
        &target(
            IdentityMapping::Template,
            "",
            Some("${identity.subject_id}-ro"),
        ),
    );
    match r {
        Resolution::SubstitutionFailed { field } => {
            assert_eq!(field, "subject_id");
        }
        other => panic!("{other:?}"),
    }
}

#[test]
fn template_unterminated_placeholder_errors() {
    let r = resolve_role(
        &ident(Some("a")),
        &target(IdentityMapping::Template, "", Some("${identity.subject_id")),
    );
    assert!(matches!(r, Resolution::SubstitutionFailed { .. }));
    assert_failed(&r, "unterminated placeholder `${identity.subject_id`");
}

#[test]
fn role_names_are_ascii_and_at_most_128_characters() {
    assert!(is_valid_role_name(&"x".repeat(128)));
    assert!(is_valid_role_name("AZaz09_-"));
    for bad in ["caf\u{e9}", "a.b", "a%2fb", "a?b", "a#b", "a\n", "a:b", "@", "[", "`", "{"] {
        assert!(!is_valid_role_name(bad), "{bad:?}");
    }
}

#[test]
fn empty_identity_values_fall_back() {
    let mut id = ident(Some(""));
    id.roles = vec!["".to_owned(), "auditor".to_owned()];
    let r = resolve_role(&id, &target(IdentityMapping::SubjectId, "fallback", None));
    assert_role(&r, "fallback", false);
    let r = resolve_role(&id, &target(IdentityMapping::FromRole, "fallback", None));
    assert_role(&r, "fallback", false);
    let r = resolve_role(&id, &target(IdentityMapping::FromRole, "", None));
    assert_empty(&r, "identity has no roles and no static fallback");
}

#[test]
fn empty_template_falls_back_to_the_operator_role() {
    let id = ident(Some("alice"));
    let r = resolve_role(&id, &target(IdentityMapping::Template, "fallback", Some("")));
    assert_role(&r, "fallback", false);
    let r = resolve_role(&id, &target(IdentityMapping::Template, "fallback", None));
    assert_role(&r, "fallback", false);
    let r = resolve_role(&id, &target(IdentityMapping::Template, "", Some("")));
    assert_empty(&r, "template substitution produced empty role name");
}

#[test]
fn failed_template_does_not_fall_back() {
    let r = resolve_role(
        &ident(None),
        &target(
            IdentityMapping::Template,
            "fallback",
            Some("${identity.subject_id}"),
        ),
    );
    assert_failed(&r, "subject_id");
}

#[test]
fn template_fields_are_the_documented_ones() {
    let mut id = ident(Some("alice"));
    id.kind = "human".into();
    id.scopes = vec!["s0".into()];
    let t = "${identity.subject_id}.${identity.kind}.${identity.trust_level}.${identity.auth_provider}.\
             ${identity.roles[0]}.${identity.groups[0]}.${identity.scopes[0]}.${identity.attributes.team}";
    assert_role(
        &substitute(t, &id),
        "alice.human.verified.okta.admin.sec.s0.secops",
        true,
    );
    assert_failed(&substitute("${identity.issuer}", &id), "issuer");
}

#[test]
fn placeholder_may_omit_the_identity_prefix() {
    assert_role(&substitute("x-${subject_id}", &ident(Some("bob"))), "x-bob", true);
}

#[test]
fn first_failing_placeholder_is_named() {
    let id = ident(Some("bob"));
    assert_failed(
        &substitute("${identity.subject_id}-${identity.scopes[0]}-${identity.nothing}", &id),
        "scopes[0]",
    );
    assert_failed(&substitute("${identity.roles[2]}", &id), "roles[2]");
    assert_failed(&substitute("${identity.attributes.none}", &id), "attributes.none");
    assert_failed(&substitute("${}", &id), "");
    let mut empty = ident(Some("bob"));
    empty.kind = "".into();
    assert_failed(&substitute("${identity.kind}", &empty), "kind");
}

#[test]
fn other_text_stands_for_itself() {
    let id = ident(Some("bob"));
    for t in ["plain", "$", "$$", "a$b", "}", "{x}", "$ {x}", "\u{e9}-$"] {
        assert_role(&substitute(t, &id), t, true);
    }
    assert_role(&substitute("$${kind}$", &id), "$verified$", true);
    assert_role(&substitute("${kind}}", &id), "verified}", true);
}

#[test]
fn template_of_two_parts_is_the_parts_in_a_row() {
    let id = ident(Some("bob"));
    assert_role(&substitute("a-${kind}", &id), "a-verified", true);
    assert_role(&substitute("${subject_id}-b", &id), "bob-b", true);
    assert_role(&substitute("a-${kind}${subject_id}-b", &id), "a-verifiedbob-b", true);
}

#[test]
fn indexed_fields_are_read() {
    assert_eq!(parse_indexed("roles[0]", "roles"), Some(0));
    assert_eq!(parse_indexed("roles[12]", "roles"), Some(12));
    assert_eq!(parse_indexed("roles[+3]", "roles"), Some(3));
    for field in ["roles", "roles[]", "roles[1", "roles1]", "roles[-1]", "roles[1]x", "groups[1]", "roles[a]", "roles[", "xroles[1]"] {
        assert_eq!(parse_indexed(field, "roles"), None, "{field:?}");
    }
    assert_eq!(parse_indexed("roles[99999999999999999999999]", "roles"), None);
}

#[test]
fn fields_are_looked_up() {
    let id = ident(Some("alice"));
    assert_eq!(resolve_field("subject_id", &id).as_deref(), Some("alice"));
    assert_eq!(resolve_field("auth_provider", &id).as_deref(), Some("okta"));
    assert_eq!(resolve_field("attributes.department", &id).as_deref(), Some("platform"));
    assert_eq!(resolve_field("attributes.", &id), None);
    assert_eq!(resolve_field("groups[0]", &id).as_deref(), Some("sec"));
    assert_eq!(resolve_field("groups[1]", &id), None);
    assert_eq!(resolve_field("scopes[0]", &id), None);
    assert_eq!(resolve_field("", &id), None);
    assert_eq!(resolve_field("subject_id", &ident(None)), None);
}

#[test]
fn dollar_without_brace_is_literal() {
    let id = ident(Some("alice"));
    for text in ["a$b", "$", "$$", "a$ {b}", "{$}"] {
        assert_role(&substitute(text, &id), text, true);
    }
}
