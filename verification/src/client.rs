//! The Vault API as far as the plugin needs it: where its requests go, and the
//! token that they carry.
//!
//! Sending is left to the caller. A call to Vault is a small state machine: the
//! caller performs the action that a step returns and hands the outcome to the
//! next step.

use crate::config::{AuthConfig, AuthView, ConfigView, VaultConfig};
use crate::http::{pairs_of, Method, RequestView, VaultRequest};
use crate::text::{law_without_end_slashes, trim_end_slashes, without_end_slashes};
use vstd::prelude::*;

verus! {

/// Where Vault is, and how its API is addressed.
#[derive(Debug)]
pub struct VaultClient {
    /// The endpoint without end slashes.
    pub base_url: String,
    pub namespace: Option<String>,
    pub db_mount: String,
    /// Whether a login can renew the token: an AppRole's can be renewed, the
    /// operator's own cannot.
    pub renews_token: bool,
}

/// What the contracts speak of for a [`VaultClient`].
pub struct ClientView {
    pub base_url: Seq<char>,
    pub namespace: Option<Seq<char>>,
    pub db_mount: Seq<char>,
    pub renews_token: bool,
}

impl View for VaultClient {
    type V = ClientView;

    open spec fn view(&self) -> ClientView {
        ClientView {
            base_url: self.base_url@,
            namespace: self.namespace.deep_view(),
            db_mount: self.db_mount@,
            renews_token: self.renews_token,
        }
    }
}

/// The client of a configuration.
pub open spec fn client_of(config: ConfigView) -> ClientView {
    ClientView {
        base_url: without_end_slashes(config.url),
        namespace: config.namespace,
        db_mount: config.db_mount,
        renews_token: config.auth is Approle,
    }
}

/// The headers of an authenticated request: the token, and the namespace if
/// there is one.
pub open spec fn auth_headers(client: ClientView, token: Seq<char>) -> Seq<
    (Seq<char>, Seq<char>),
> {
    match client.namespace {
        Some(namespace) => seq![
            ("X-Vault-Token"@, token),
            ("X-Vault-Namespace"@, namespace),
        ],
        None => seq![("X-Vault-Token"@, token)],
    }
}

/// Where an AppRole login goes.
pub open spec fn login_url(client: ClientView, mount_path: Seq<char>) -> Seq<char> {
    client.base_url + "/v1/auth/"@ + mount_path + "/login"@
}

/// Where credentials of a role are asked for.
pub open spec fn creds_url(client: ClientView, role: Seq<char>) -> Seq<char> {
    client.base_url + "/v1/"@ + client.db_mount + "/creds/"@ + role
}

/// Where leases are revoked.
pub open spec fn revoke_url(client: ClientView) -> Seq<char> {
    client.base_url + "/v1/sys/leases/revoke"@
}

/// The request for an AppRole login.
pub open spec fn login_request(
    client: ClientView,
    role_id: Seq<char>,
    secret_id: Seq<char>,
    mount_path: Seq<char>,
) -> RequestView {
    RequestView {
        method: Method::Post,
        url: login_url(client, mount_path),
        headers: Seq::empty(),
        body: Some(seq![("role_id"@, role_id), ("secret_id"@, secret_id)]),
    }
}

/// The request for credentials of a role.
pub open spec fn creds_request(
    client: ClientView,
    role: Seq<char>,
    token: Seq<char>,
) -> RequestView {
    RequestView {
        method: Method::Post,
        url: creds_url(client, role),
        headers: auth_headers(client, token),
        body: None,
    }
}

/// The request that revokes a lease.
pub open spec fn revoke_request(
    client: ClientView,
    lease_id: Seq<char>,
    token: Seq<char>,
) -> RequestView {
    RequestView {
        method: Method::Put,
        url: revoke_url(client),
        headers: auth_headers(client, token),
        body: Some(seq![("lease_id"@, lease_id)]),
    }
}

/// The token that is in use, and how to get another.
pub struct AuthState {
    pub config: AuthConfig,
    /// The cached token: the operator's own, or that of the last login.
    pub token: Option<String>,
}

/// What the contracts speak of for an [`AuthState`].
pub struct AuthStateView {
    pub config: AuthView,
    pub token: Option<Seq<char>>,
}

impl View for AuthState {
    type V = AuthStateView;

    open spec fn view(&self) -> AuthStateView {
        AuthStateView { config: self.config@, token: self.token.deep_view() }
    }
}

/// The state before the first request: the operator's token is at hand, a login
/// is still to come.
pub open spec fn fresh_auth(config: AuthView) -> AuthStateView {
    AuthStateView {
        config,
        token: match config {
            AuthView::Token { token } => Some(token),
            AuthView::Approle { .. } => None,
        },
    }
}

impl AuthState {
    /// The state before the first request.
    pub fn new(config: &AuthConfig) -> (state: Self)
        ensures
            state@ == fresh_auth(config@),
    {
        let token = match config {
            AuthConfig::Token { token } => Some(token.clone()),
            AuthConfig::Approle { .. } => None,
        };
        AuthState { config: config.clone(), token }
    }
}

/// How a token is to be had.
#[derive(Debug)]
pub enum TokenStep {
    /// Here it is.
    Ready { token: String },
    /// By this login; its outcome goes to a [`crate::login::LoginCall`].
    Login { request: VaultRequest },
}

/// What the contracts speak of for a [`TokenStep`].
pub enum TokenStepView {
    Ready { token: Seq<char> },
    Login { request: RequestView },
}

impl View for TokenStep {
    type V = TokenStepView;

    open spec fn view(&self) -> TokenStepView {
        match *self {
            TokenStep::Ready { token } => TokenStepView::Ready { token: token@ },
            TokenStep::Login { request } => TokenStepView::Login { request: request@ },
        }
    }
}

/// The state after a token is asked for, and how it is to be had: from the
/// cache, from the operator, or by a login.
pub open spec fn token_step(client: ClientView, state: AuthStateView) -> (
    AuthStateView,
    TokenStepView,
) {
    match state.token {
        Some(token) => (state, TokenStepView::Ready { token }),
        None => match state.config {
            AuthView::Token { token } => (
                AuthStateView { config: state.config, token: Some(token) },
                TokenStepView::Ready { token },
            ),
            AuthView::Approle { role_id, secret_id, mount_path } => (
                state,
                TokenStepView::Login {
                    request: login_request(client, role_id, secret_id, mount_path),
                },
            ),
        },
    }
}

/// The state after the cached token is dropped.
pub open spec fn token_dropped(state: AuthStateView) -> AuthStateView {
    AuthStateView { config: state.config, token: None }
}

impl VaultClient {
    /// The client of a configuration.
    pub fn new(config: &VaultConfig) -> (client: Self)
        ensures
            client@ == client_of(config@),
    {
        let renews_token = match &config.auth {
            AuthConfig::Token { .. } => false,
            AuthConfig::Approle { .. } => true,
        };
        VaultClient {
            base_url: trim_end_slashes(config.url.as_str()),
            namespace: config.namespace.clone(),
            db_mount: config.db_mount.clone(),
            renews_token,
        }
    }

    /// Adds the headers of an authenticated request.
    pub fn add_auth_headers(&self, request: VaultRequest, token: &str) -> (res: VaultRequest)
        ensures
            res@ == (RequestView {
                headers: request@.headers + auth_headers(self@, token@),
                ..request@
            }),
    {
        let mut headers = request.headers;
        headers.push(("X-Vault-Token".to_owned(), token.to_owned()));
        if let Some(namespace) = &self.namespace {
            headers.push(("X-Vault-Namespace".to_owned(), namespace.clone()));
        }
        proof {
            assert(pairs_of(headers@) =~= request@.headers + auth_headers(self@, token@));
        }
        VaultRequest { method: request.method, url: request.url, headers, body: request.body }
    }

    /// A token to use: the cached one, the operator's own, or one that a login
    /// is to give.
    pub fn current_token(&self, state: &mut AuthState) -> (step: TokenStep)
        ensures
            (final(state)@, step@) == token_step(self@, old(state)@),
    {
        if let Some(token) = &state.token {
            return TokenStep::Ready { token: token.clone() };
        }
        match &state.config {
            AuthConfig::Token { token } => {
                let token = token.clone();
                state.token = Some(token.clone());
                TokenStep::Ready { token }
            },
            AuthConfig::Approle { role_id, secret_id, mount_path } => {
                let mut url = self.base_url.clone();
                url.append("/v1/auth/");
                url.append(mount_path.as_str());
                url.append("/login");
                let mut members: Vec<(String, String)> = Vec::new();
                members.push(("role_id".to_owned(), role_id.clone()));
                members.push(("secret_id".to_owned(), secret_id.clone()));
                let headers: Vec<(String, String)> = Vec::new();
                proof {
                    assert(pairs_of(headers@) =~= Seq::empty());
                    assert(pairs_of(members@) =~= seq![
                        ("role_id"@, role_id@),
                        ("secret_id"@, secret_id@),
                    ]);
                }
                TokenStep::Login {
                    request: VaultRequest {
                        method: Method::Post,
                        url,
                        headers,
                        body: Some(members),
                    },
                }
            },
        }
    }

    /// Drops the cached token, so that the next request authenticates anew.
    pub fn invalidate_token(&self, state: &mut AuthState)
        ensures
            final(state)@ == token_dropped(old(state)@),
    {
        state.token = None;
    }
}

/// What can happen to a token between requests.
pub enum TokenUse {
    /// It was asked for.
    Asked,
    /// It was dropped from the cache.
    Dropped,
}

/// The state after a row of uses.
pub open spec fn token_uses(
    client: ClientView,
    state: AuthStateView,
    uses: Seq<TokenUse>,
) -> AuthStateView
    decreases uses.len(),
{
    if uses.len() == 0 {
        state
    } else {
        let next = match uses[0] {
            TokenUse::Asked => token_step(client, state).0,
            TokenUse::Dropped => token_dropped(state),
        };
        token_uses(client, next, uses.drop_first())
    }
}

proof fn lemma_operator_token(
    client: ClientView,
    state: AuthStateView,
    uses: Seq<TokenUse>,
    token: Seq<char>,
)
    requires
        state.config == (AuthView::Token { token }),
        state.token is None || state.token == Some(token),
    ensures
        token_step(client, token_uses(client, state, uses)).1 == (TokenStepView::Ready { token }),
    decreases uses.len(),
{
    if uses.len() > 0 {
        let next = match uses[0] {
            TokenUse::Asked => token_step(client, state).0,
            TokenUse::Dropped => token_dropped(state),
        };
        lemma_operator_token(client, next, uses.drop_first(), token);
    }
}

/// With a token of the operator's no login is ever needed: however often a token
/// was asked for or dropped, the token in use is the operator's.
pub proof fn law_operator_token_needs_no_login(
    client: ClientView,
    token: Seq<char>,
    uses: Seq<TokenUse>,
)
    ensures
        token_step(
            client,
            token_uses(client, fresh_auth(AuthView::Token { token }), uses),
        ).1 == (TokenStepView::Ready { token }),
{
    lemma_operator_token(client, fresh_auth(AuthView::Token { token }), uses, token);
}

/// With AppRole a login is needed at first and after the cached token was
/// dropped, and only then; it goes to the configured mount path with the
/// configured ids, and without a token.
pub proof fn law_approle_logs_in_without_token(client: ClientView, state: AuthStateView)
    requires
        state.config is Approle,
    ensures
        token_step(client, state).1 is Login <==> state.token is None,
        token_step(client, token_dropped(state)).1 is Login,
        fresh_auth(state.config).token is None,
        token_step(client, state).1 matches TokenStepView::Login { request } ==> request
            == login_request(
            client,
            state.config->role_id,
            state.config->secret_id,
            state.config->mount_path,
        ) && request.headers.len() == 0,
{
}

/// A slash at the end of the endpoint makes no difference.
pub proof fn law_end_slash_makes_no_difference(config: ConfigView)
    ensures
        client_of(ConfigView { url: config.url.push('/'), ..config }) == client_of(config),
{
    assert(config.url.push('/').drop_last() =~= config.url);
}

/// The client of a configuration keeps the namespace and the mount path, and the
/// endpoint but for slashes at its end. It renews tokens if and only if the
/// configuration logs in with AppRole.
pub proof fn law_client_follows_config(config: ConfigView)
    ensures
        ({
            let client = client_of(config);
            &&& client.namespace == config.namespace
            &&& client.db_mount == config.db_mount
            &&& client.renews_token <==> config.auth is Approle
            &&& client.base_url.len() <= config.url.len()
            &&& client.base_url == config.url.take(client.base_url.len() as int)
            &&& forall|i: int|
                client.base_url.len() <= i < config.url.len() ==> #[trigger] config.url[i] == '/'
            &&& client.base_url.len() > 0 ==> client.base_url.last() != '/'
        }),
{
    law_without_end_slashes(config.url);
}

/// Every authenticated request carries the token, once; and it carries the
/// namespace, once, if and only if there is one. It carries no other header.
pub proof fn law_auth_headers(client: ClientView, token: Seq<char>, i: int)
    ensures
        ({
            let headers = auth_headers(client, token);
            &&& headers.contains(("X-Vault-Token"@, token))
            &&& client.namespace is None ==> headers.len() == 1
            &&& client.namespace is Some ==> headers.len() == 2 && headers.contains(
                ("X-Vault-Namespace"@, client.namespace->0),
            )
            &&& 0 <= i < headers.len() && headers[i].0 == "X-Vault-Token"@ ==> i == 0
                && headers[i].1 == token
            &&& 0 <= i < headers.len() && headers[i].0 != "X-Vault-Token"@ ==> headers[i].0
                == "X-Vault-Namespace"@ && client.namespace == Some(headers[i].1)
        }),
{
    reveal_strlit("X-Vault-Token");
    reveal_strlit("X-Vault-Namespace");
    let headers = auth_headers(client, token);
    assert(headers[0] == ("X-Vault-Token"@, token));
    assert("X-Vault-Token"@.len() != "X-Vault-Namespace"@.len());
    if client.namespace is Some {
        assert(headers[1] == ("X-Vault-Namespace"@, client.namespace->0));
    }
}

/// A request for credentials is a POST without a body to the role under the
/// engine's mount path, and carries the token whether or not there is a
/// namespace. Requests for two roles, or with two tokens, differ.
pub proof fn law_creds_request(
    client: ClientView,
    role: Seq<char>,
    token: Seq<char>,
    role2: Seq<char>,
    token2: Seq<char>,
)
    ensures
        ({
            let request = creds_request(client, role, token);
            &&& request.method == Method::Post
            &&& request.url == client.base_url + "/v1/"@ + client.db_mount + "/creds/"@ + role
            &&& request.body is None
            &&& request.headers.contains(("X-Vault-Token"@, token))
            &&& request.headers == auth_headers(client, token)
            &&& request == creds_request(client, role2, token2) ==> role == role2 && token
                == token2
        }),
{
    law_auth_headers(client, token, 0);
    let request = creds_request(client, role, token);
    let other = creds_request(client, role2, token2);
    if request == other {
        let stem = client.base_url + "/v1/"@ + client.db_mount + "/creds/"@;
        assert(request.url == stem + role);
        assert(other.url == stem + role2);
        assert(role =~= request.url.skip(stem.len() as int));
        assert(role2 =~= other.url.skip(stem.len() as int));
        assert(request.headers[0] == ("X-Vault-Token"@, token));
        assert(other.headers[0] == ("X-Vault-Token"@, token2));
    }
}

/// A revocation is a PUT to the one path for it, names the whole lease id and
/// nothing else in its body, and carries the token whether or not there is a
/// namespace. Two leases never share a body.
pub proof fn law_revoke_request(
    client: ClientView,
    lease_id: Seq<char>,
    token: Seq<char>,
    lease_id2: Seq<char>,
    token2: Seq<char>,
)
    ensures
        ({
            let request = revoke_request(client, lease_id, token);
            &&& request.method == Method::Put
            &&& request.url == client.base_url + "/v1/sys/leases/revoke"@
            &&& request.body is Some
            &&& request.body->0.len() == 1
            &&& request.body->0[0].0 == "lease_id"@
            &&& request.body->0[0].1 == lease_id
            &&& request.headers.contains(("X-Vault-Token"@, token))
            &&& request.headers == auth_headers(client, token)
            &&& request.body == revoke_request(client, lease_id2, token2).body ==> lease_id
                == lease_id2
        }),
{
    law_auth_headers(client, token, 0);
    let body = revoke_request(client, lease_id, token).body->0;
    let body2 = revoke_request(client, lease_id2, token2).body->0;
    assert(body[0] == ("lease_id"@, lease_id));
    assert(body2[0] == ("lease_id"@, lease_id2));
}

/// A login is a POST to the login path of its mount, without headers, and names
/// the whole role id and the whole secret id. Logins with two pairs of ids
/// differ.
pub proof fn law_login_request(
    client: ClientView,
    role_id: Seq<char>,
    secret_id: Seq<char>,
    mount_path: Seq<char>,
    role_id2: Seq<char>,
    secret_id2: Seq<char>,
)
    ensures
        ({
            let request = login_request(client, role_id, secret_id, mount_path);
            &&& request.method == Method::Post
            &&& request.url == client.base_url + "/v1/auth/"@ + mount_path + "/login"@
            &&& request.headers.len() == 0
            &&& request.body is Some
            &&& request.body->0.len() == 2
            &&& request.body->0[0] == ("role_id"@, role_id)
            &&& request.body->0[1] == ("secret_id"@, secret_id)
            &&& request.body == login_request(client, role_id2, secret_id2, mount_path).body
                ==> role_id == role_id2 && secret_id == secret_id2
        }),
{
    let body = login_request(client, role_id, secret_id, mount_path).body->0;
    let body2 = login_request(client, role_id2, secret_id2, mount_path).body->0;
    assert(body[0] == ("role_id"@, role_id) && body[1] == ("secret_id"@, secret_id));
    assert(body2[0] == ("role_id"@, role_id2) && body2[1] == ("secret_id"@, secret_id2));
}

/// Where a token comes from: the cached one is used as long as there is one and
/// stays cached; without one, an operator's own token is used and cached, and an
/// AppRole logs in with its own ids. How to authenticate never changes, and
/// dropping the token drops nothing else.
pub proof fn law_token_source(client: ClientView, state: AuthStateView)
    ensures
        ({
            let (after, step) = token_step(client, state);
            &&& after.config == state.config
            &&& state.token is Some ==> after.token == state.token && step == (
            TokenStepView::Ready { token: state.token->0 })
            &&& (state.token is None && state.config is Token) ==> after.token == Some(
                state.config->token,
            ) && step == (TokenStepView::Ready { token: state.config->token })
            &&& (state.token is None && state.config is Approle) ==> after.token is None && step
                == (TokenStepView::Login {
                request: login_request(
                    client,
                    state.config->role_id,
                    state.config->secret_id,
                    state.config->mount_path,
                ),
            })
        }),
        token_dropped(state).token is None,
        token_dropped(state).config == state.config,
        fresh_auth(state.config).config == state.config,
        state.config is Token ==> fresh_auth(state.config).token == Some(state.config->token),
        state.config is Approle ==> fresh_auth(state.config).token is None,
{
}

/// The contracts speak of all of a client.
pub proof fn law_client_is_viewed_whole(client: VaultClient)
    ensures
        client@.base_url == client.base_url@,
        client@.namespace is Some <==> client.namespace is Some,
        client.namespace matches Some(namespace) ==> client@.namespace == Some(namespace@),
        client@.db_mount == client.db_mount@,
        client@.renews_token == client.renews_token,
{
}

/// The contracts speak of how a token is to be had by all of the token or all of
/// the login request.
pub proof fn law_token_step_is_viewed_whole(step: TokenStep)
    ensures
        step matches TokenStep::Ready { token } ==> step@ == (TokenStepView::Ready {
            token: token@,
        }),
        step matches TokenStep::Login { request } ==> step@ == (TokenStepView::Login {
            request: request@,
        }),
{
}

/// The contracts speak of all of the token that is in use.
pub proof fn law_auth_state_is_viewed_whole(state: AuthState)
    ensures
        state@.config == state.config@,
        state@.token is Some <==> state.token is Some,
        state.token matches Some(token) ==> state@.token == Some(token@),
{
}

} // verus!
