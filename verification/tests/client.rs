use vault_dynamic_db::client::{AuthState, TokenStep, VaultClient};
use vault_dynamic_db::config::{
    default_db_mount, default_max_cache_ttl_ms, AuthConfig, ConnectionConfig, IdentityMapping,
    TargetConfig, VaultConfig,
};
use vault_dynamic_db::credential::CredentialError;
use vault_dynamic_db::http::{Method, VaultRequest};
use vault_dynamic_db::issue_call::{map_vault_error, DbCreds, IssueAction, IssueCall, IssueEvent};
use vault_dynamic_db::login::{LoginAction, LoginCall, LoginEvent};
use vault_dynamic_db::revoke_call::{RevokeAction, RevokeEvent};
use vault_dynamic_db::string_map::StringMap;

fn token_auth() -> AuthConfig {
    AuthConfig::Token {
        token: "s.abc123".to_owned(),
    }
}

fn approle_auth() -> AuthConfig {
    AuthConfig::Approle {
        role_id: "rid-abc".to_owned(),
        secret_id: "sid-xyz".to_owned(),
        mount_path: "approle".to_owned(),
    }
}

fn config(url: &str, namespace: Option<&str>, auth: AuthConfig) -> VaultConfig {
    let mut targets = StringMap::new();
    targets.insert(
        "orders".to_owned(),
        TargetConfig {
            vault_role: "orders".to_owned(),
            identity_mapping: IdentityMapping::Static,
            role_template: None,
            max_cache_ttl_ms: default_max_cache_ttl_ms(),
            revoke_on_evict: true,
            allowed_roles: None,
        },
    );
    VaultConfig {
        url: url.to_owned(),
        auth,
        namespace: namespace.map(|s| s.to_owned()),
        db_mount: default_db_mount(),
        targets,
        connection: ConnectionConfig::default(),
    }
}

fn client() -> VaultClient {
    VaultClient::new(&config("https://vault:8200/", Some("team-a"), token_auth()))
}

fn approle_client() -> VaultClient {
    VaultClient::new(&config("https://vault:8200/", Some("team-a"), approle_auth()))
}

fn pair(name: &str, value: &str) -> (String, String) {
    (name.to_owned(), value.to_owned())
}

fn creds() -> DbCreds {
    DbCreds {
        username: "u".to_owned(),
        password: "p".to_owned(),
        lease_id: "database/creds/orders/1".to_owned(),
        lease_duration: 3600,
    }
}

fn token(token: &str) -> IssueEvent {
    IssueEvent::TokenObtained {
        token: token.to_owned(),
    }
}

fn sent(call: &mut IssueCall, client: &VaultClient, with: &str) -> VaultRequest {
    match call.step(client, token(with)) {
        IssueAction::Send { request } => request,
        other => panic!("{other:?}"),
    }
}

fn failure(action: IssueAction) -> CredentialError {
    match action {
        IssueAction::Finish { result: Err(error) } => error,
        other => panic!("{other:?}"),
    }
}

#[test]
fn map_403_to_not_authorized() {
    let err = map_vault_error(403, "", "ro");
    assert!(matches!(err, CredentialError::NotAuthorized { .. }));
}

#[test]
fn map_429_to_throttled() {
    let err = map_vault_error(429, "rate limit", "ro");
    assert!(matches!(err, CredentialError::Throttled { .. }));
}

#[test]
fn map_500_to_backend() {
    let err = map_vault_error(500, "boom", "ro");
    assert!(matches!(err, CredentialError::Backend { .. }));
}

#[test]
fn map_400_to_misconfigured() {
    let err = map_vault_error(400, "missing role", "ro");
    assert!(matches!(err, CredentialError::Misconfigured { .. }));
}

#[test]
fn vault_errors_are_worded_by_status() {
    let cases: Vec<(u16, &str)> = vec![
        (403, "NotAuthorized { reason: \"vault: role `ro` denied access (text)\" }"),
        (429, "Throttled { reason: \"vault: rate limited (text)\" }"),
        (
            400,
            "Misconfigured { reason: \"vault returned 400 Bad Request for role `ro`: text\" }",
        ),
        (
            401,
            "Misconfigured { reason: \"vault returned 401 Unauthorized for role `ro`: text\" }",
        ),
        (
            499,
            "Misconfigured { reason: \"vault returned 499 <unknown status code> for role `ro`: text\" }",
        ),
        (500, "Backend { reason: \"vault 500 Internal Server Error: text\" }"),
        (503, "Backend { reason: \"vault 503 Service Unavailable: text\" }"),
        (302, "Backend { reason: \"vault unexpected status 302 Found: text\" }"),
        (
            999,
            "Backend { reason: \"vault unexpected status 999 <unknown status code>: text\" }",
        ),
        (100, "Backend { reason: \"vault unexpected status 100 Continue: text\" }"),
    ];
    for (status, words) in cases {
        assert_eq!(format!("{:?}", map_vault_error(status, "text", "ro")), words);
    }
}

#[test]
fn vault_errors_quote_200_characters() {
    let long = "\u{e9}".repeat(201);
    match map_vault_error(429, &long, "ro") {
        CredentialError::Throttled { reason } => {
            assert_eq!(reason, format!("vault: rate limited ({})", "\u{e9}".repeat(200)));
        }
        other => panic!("{other:?}"),
    }
}

#[test]
fn end_slashes_of_the_endpoint_do_not_matter() {
    for url in ["https://vault:8200", "https://vault:8200/", "https://vault:8200///"] {
        let client = VaultClient::new(&config(url, None, token_auth()));
        assert_eq!(client.base_url, "https://vault:8200");
        assert_eq!(client.db_mount, "database");
        assert_eq!(client.namespace, None);
    }
}

#[test]
fn headers_carry_token_and_namespace() {
    let request = VaultRequest {
        method: Method::Post,
        url: "u".to_owned(),
        headers: vec![pair("A", "b")],
        body: None,
    };
    let request = client().add_auth_headers(request, "s.1");
    assert_eq!(
        request.headers,
        vec![
            pair("A", "b"),
            pair("X-Vault-Token", "s.1"),
            pair("X-Vault-Namespace", "team-a")
        ]
    );
    assert_eq!(request.method, Method::Post);
    assert_eq!(request.url, "u");
}

#[test]
fn operator_token_is_used_without_a_login() {
    let client = client();
    let mut state = AuthState::new(&token_auth());
    for _ in 0..2 {
        match client.current_token(&mut state) {
            TokenStep::Ready { token } => assert_eq!(token, "s.abc123"),
            other => panic!("{other:?}"),
        }
    }
    client.invalidate_token(&mut state);
    assert_eq!(state.token, None);
    match client.current_token(&mut state) {
        TokenStep::Ready { token } => assert_eq!(token, "s.abc123"),
        other => panic!("{other:?}"),
    }
    assert_eq!(state.token.as_deref(), Some("s.abc123"));
}

#[test]
fn approle_logs_in_once_until_the_token_is_dropped() {
    let client = client();
    let mut state = AuthState::new(&approle_auth());
    for login in ["s.1", "s.2"] {
        match client.current_token(&mut state) {
            TokenStep::Login { request } => {
                assert_eq!(request.method, Method::Post);
                assert_eq!(request.url, "https://vault:8200/v1/auth/approle/login");
                assert_eq!(request.headers, vec![]);
                assert_eq!(
                    request.body,
                    Some(vec![pair("role_id", "rid-abc"), pair("secret_id", "sid-xyz")])
                );
            }
            other => panic!("{other:?}"),
        }
        let mut call = LoginCall::sent();
        assert!(matches!(
            call.step(&mut state, LoginEvent::Replied { status: 200 }),
            LoginAction::ReadToken
        ));
        match call.step(
            &mut state,
            LoginEvent::TokenRead {
                token: login.to_owned(),
            },
        ) {
            LoginAction::Finish { result: Ok(token) } => assert_eq!(token, login),
            other => panic!("{other:?}"),
        }
        match client.current_token(&mut state) {
            TokenStep::Ready { token } => assert_eq!(token, login),
            other => panic!("{other:?}"),
        }
        client.invalidate_token(&mut state);
    }
}

#[test]
fn failed_logins_are_told_apart() {
    let mut state = AuthState::new(&approle_auth());
    let action = LoginCall::sent().step(
        &mut state,
        LoginEvent::SendFailed {
            reason: "refused".to_owned(),
        },
    );
    assert_eq!(
        format!("{action:?}"),
        "Finish { result: Err(Backend { reason: \"approle login: refused\" }) }"
    );

    let mut call = LoginCall::sent();
    assert!(matches!(
        call.step(&mut state, LoginEvent::Replied { status: 400 }),
        LoginAction::ReadText
    ));
    let action = call.step(
        &mut state,
        LoginEvent::TextRead {
            text: "invalid role id".to_owned(),
        },
    );
    assert_eq!(
        format!("{action:?}"),
        "Finish { result: Err(NotAuthorized { reason: \"approle login failed (400 Bad Request): invalid role id\" }) }"
    );

    let mut call = LoginCall::sent();
    call.step(&mut state, LoginEvent::Replied { status: 204 });
    let action = call.step(
        &mut state,
        LoginEvent::TokenUnreadable {
            reason: "eof".to_owned(),
        },
    );
    assert_eq!(
        format!("{action:?}"),
        "Finish { result: Err(Backend { reason: \"approle login json: eof\" }) }"
    );
    assert_eq!(state.token, None);
}

#[test]
fn credentials_are_asked_for_and_read() {
    let client = client();
    let mut call = client.issue_db_creds("orders");
    let request = sent(&mut call, &client, "s.1");
    assert_eq!(request.method, Method::Post);
    assert_eq!(request.url, "https://vault:8200/v1/database/creds/orders");
    assert_eq!(
        request.headers,
        vec![pair("X-Vault-Token", "s.1"), pair("X-Vault-Namespace", "team-a")]
    );
    assert_eq!(request.body, None);
    assert!(matches!(
        call.step(&client, IssueEvent::Replied { status: 200 }),
        IssueAction::ReadCreds
    ));
    match call.step(&client, IssueEvent::CredsRead { creds: creds() }) {
        IssueAction::Finish { result: Ok(creds) } => {
            assert_eq!(creds.username, "u");
            assert_eq!(creds.lease_duration, 3600);
        }
        other => panic!("{other:?}"),
    }
}

#[test]
fn expired_token_is_renewed_once() {
    let client = client();
    let mut call = client.issue_db_creds("orders");
    sent(&mut call, &client, "s.old");
    assert!(matches!(
        call.step(&client, IssueEvent::Replied { status: 401 }),
        IssueAction::Reauthenticate
    ));
    let request = sent(&mut call, &client, "s.new");
    assert_eq!(request.headers[0], pair("X-Vault-Token", "s.new"));
    assert_eq!(request.url, "https://vault:8200/v1/database/creds/orders");
    assert!(matches!(
        call.step(&client, IssueEvent::Replied { status: 401 }),
        IssueAction::ReadText
    ));
    let error = failure(call.step(
        &client,
        IssueEvent::TextRead {
            text: "no".to_owned(),
        },
    ));
    assert_eq!(
        format!("{error:?}"),
        "Misconfigured { reason: \"vault returned 401 Unauthorized for role `orders`: no\" }"
    );
}

#[test]
fn renewed_token_can_succeed() {
    let client = client();
    let mut call = client.issue_db_creds("orders");
    sent(&mut call, &client, "s.old");
    call.step(&client, IssueEvent::Replied { status: 401 });
    sent(&mut call, &client, "s.new");
    assert!(matches!(
        call.step(&client, IssueEvent::Replied { status: 299 }),
        IssueAction::ReadCreds
    ));
}

#[test]
fn failed_requests_for_credentials_are_told_apart() {
    let client = client();

    let mut call = client.issue_db_creds("orders");
    let error = failure(call.step(
        &client,
        IssueEvent::TokenRefused {
            error: CredentialError::NotAuthorized {
                reason: "login".to_owned(),
            },
        },
    ));
    assert!(matches!(error, CredentialError::NotAuthorized { reason } if reason == "login"));

    let mut call = client.issue_db_creds("orders");
    sent(&mut call, &client, "s.1");
    let error = failure(call.step(
        &client,
        IssueEvent::SendFailed {
            reason: "timeout".to_owned(),
        },
    ));
    assert!(
        matches!(error, CredentialError::Backend { reason } if reason == "issue_db_creds request: timeout")
    );

    let mut call = client.issue_db_creds("orders");
    sent(&mut call, &client, "s.1");
    call.step(&client, IssueEvent::Replied { status: 200 });
    let error = failure(call.step(
        &client,
        IssueEvent::CredsUnreadable {
            reason: "eof".to_owned(),
        },
    ));
    assert!(
        matches!(error, CredentialError::Backend { reason } if reason == "issue_db_creds json: eof")
    );

    let mut call = client.issue_db_creds("orders");
    sent(&mut call, &client, "s.1");
    assert!(matches!(
        call.step(&client, IssueEvent::Replied { status: 403 }),
        IssueAction::ReadText
    ));
    let error = failure(call.step(
        &client,
        IssueEvent::TextRead {
            text: "denied".to_owned(),
        },
    ));
    assert!(
        matches!(error, CredentialError::NotAuthorized { reason } if reason == "vault: role `orders` denied access (denied)")
    );
}

#[test]
fn lease_is_revoked_with_one_request() {
    let client = client();
    for status in [200u16, 204] {
        let mut call = client.revoke_lease("lease-1");
        match call.step(
            &client,
            RevokeEvent::TokenObtained {
                token: "s.1".to_owned(),
            },
        ) {
            RevokeAction::Send { request } => {
                assert_eq!(request.method, Method::Put);
                assert_eq!(request.url, "https://vault:8200/v1/sys/leases/revoke");
                assert_eq!(
                    request.headers,
                    vec![pair("X-Vault-Token", "s.1"), pair("X-Vault-Namespace", "team-a")]
                );
                assert_eq!(request.body, Some(vec![pair("lease_id", "lease-1")]));
            }
            other => panic!("{other:?}"),
        }
        assert!(matches!(
            call.step(&client, RevokeEvent::Replied { status }),
            RevokeAction::Finish { result: Ok(()) }
        ));
    }
}

#[test]
fn failed_revocations_are_told_apart() {
    let client = client();
    let token = || RevokeEvent::TokenObtained {
        token: "s.1".to_owned(),
    };

    let mut call = client.revoke_lease("lease-1");
    call.step(&client, token());
    assert!(matches!(
        call.step(&client, RevokeEvent::Replied { status: 500 }),
        RevokeAction::ReadText
    ));
    let action = call.step(
        &client,
        RevokeEvent::TextRead {
            text: "sealed".to_owned(),
        },
    );
    assert_eq!(
        format!("{action:?}"),
        "Finish { result: Err(Backend { reason: \"revoke_lease failed (500 Internal Server Error): sealed\" }) }"
    );

    // The operator's own token cannot be renewed.
    let mut call = client.revoke_lease("lease-1");
    call.step(&client, token());
    assert!(matches!(
        call.step(&client, RevokeEvent::Replied { status: 401 }),
        RevokeAction::ReadText
    ));
    let action = call.step(
        &client,
        RevokeEvent::TextRead {
            text: "expired".to_owned(),
        },
    );
    assert_eq!(
        format!("{action:?}"),
        "Finish { result: Err(Backend { reason: \"revoke_lease failed (401 Unauthorized): expired\" }) }"
    );

    let renewing = approle_client();
    let mut call = renewing.revoke_lease("lease-1");
    call.step(&renewing, token());
    assert!(matches!(
        call.step(&renewing, RevokeEvent::Replied { status: 401 }),
        RevokeAction::Reauthenticate
    ));
    assert!(matches!(
        call.step(&renewing, token()),
        RevokeAction::Send { .. }
    ));
    assert!(matches!(
        call.step(&renewing, RevokeEvent::Replied { status: 401 }),
        RevokeAction::ReadText
    ));
    let action = call.step(
        &renewing,
        RevokeEvent::TextRead {
            text: "expired".to_owned(),
        },
    );
    assert_eq!(
        format!("{action:?}"),
        "Finish { result: Err(Backend { reason: \"revoke_lease failed (401 Unauthorized): expired\" }) }"
    );

    let mut call = client.revoke_lease("lease-1");
    call.step(&client, token());
    let action = call.step(
        &client,
        RevokeEvent::SendFailed {
            reason: "timeout".to_owned(),
        },
    );
    assert_eq!(
        format!("{action:?}"),
        "Finish { result: Err(Backend { reason: \"revoke_lease request: timeout\" }) }"
    );

    let mut call = client.revoke_lease("lease-1");
    let action = call.step(
        &client,
        RevokeEvent::TokenRefused {
            error: CredentialError::Backend {
                reason: "down".to_owned(),
            },
        },
    );
    assert_eq!(
        format!("{action:?}"),
        "Finish { result: Err(Backend { reason: \"down\" }) }"
    );
}

/// The token that an AppRole login brings, with `token` in its reply.
fn log_in(client: &VaultClient, state: &mut AuthState, token: &str) -> String {
    assert!(matches!(
        client.current_token(state),
        TokenStep::Login { .. }
    ));
    let mut call = LoginCall::sent();
    call.step(state, LoginEvent::Replied { status: 200 });
    match call.step(
        state,
        LoginEvent::TokenRead {
            token: token.to_owned(),
        },
    ) {
        LoginAction::Finish { result } => result.unwrap(),
        other => panic!("{other:?}"),
    }
}

#[test]
fn revocation_renews_an_expired_token() {
    let client = approle_client();
    let mut state = AuthState::new(&approle_auth());
    let first = log_in(&client, &mut state, "k1");
    let mut call = client.revoke_lease("lease-1");
    call.step(&client, RevokeEvent::TokenObtained { token: first });
    assert!(matches!(
        call.step(&client, RevokeEvent::Replied { status: 401 }),
        RevokeAction::Reauthenticate
    ));
    client.invalidate_token(&mut state);
    let second = log_in(&client, &mut state, "k2");
    match call.step(&client, RevokeEvent::TokenObtained { token: second }) {
        RevokeAction::Send { request } => {
            assert_eq!(request.method, Method::Put);
            assert_eq!(request.headers[0], pair("X-Vault-Token", "k2"));
            assert_eq!(request.body, Some(vec![pair("lease_id", "lease-1")]));
        }
        other => panic!("{other:?}"),
    }
    assert!(matches!(
        call.step(&client, RevokeEvent::Replied { status: 204 }),
        RevokeAction::Finish { result: Ok(()) }
    ));
    assert_eq!(state.token.as_deref(), Some("k2"));
}

#[test]
fn issue_renews_an_expired_token() {
    let client = approle_client();
    let mut state = AuthState::new(&approle_auth());
    let first = log_in(&client, &mut state, "k1");
    let mut call = client.issue_db_creds("orders");
    sent(&mut call, &client, &first);
    assert!(matches!(
        call.step(&client, IssueEvent::Replied { status: 401 }),
        IssueAction::Reauthenticate
    ));
    client.invalidate_token(&mut state);
    let second = log_in(&client, &mut state, "k2");
    let request = sent(&mut call, &client, &second);
    assert_eq!(request.headers[0], pair("X-Vault-Token", "k2"));
    assert_eq!(state.token.as_deref(), Some("k2"));
}

#[test]
fn operator_token_outlasts_every_drop() {
    let client = client();
    let mut state = AuthState::new(&token_auth());
    for drops in [0, 1, 2] {
        for _ in 0..drops {
            client.invalidate_token(&mut state);
        }
        assert!(matches!(
            client.current_token(&mut state),
            TokenStep::Ready { token } if token == "s.abc123"
        ));
    }
}
