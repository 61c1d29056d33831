//! The operator's configuration: its types, their defaults, and the rules that
//! a configuration must meet before the plugin takes it.

use crate::identity_mapping::{is_valid_role_name, valid_role_name};
use crate::string_map::{keys_rise, text_lt, StringMap};
use crate::text::{blank, decimal, decimal_text, is_blank, starts_with};
use vstd::prelude::*;

verus! {

/// How the caller's identity selects a Vault role.
#[derive(Debug, Clone, Copy, PartialEq, Eq, Structural)]
pub enum IdentityMapping {
    /// Always the target's `vault_role`. The default.
    Static,
    /// The identity's `subject_id`.
    SubjectId,
    /// The target's `role_template`, with identity fields substituted into it.
    Template,
    /// The identity's first role.
    FromRole,
}

impl Default for IdentityMapping {
    fn default() -> (mapping: Self)
        ensures
            mapping == IdentityMapping::Static,
    {
        IdentityMapping::Static
    }
}

/// How the plugin authenticates to Vault.
#[derive(Debug, PartialEq)]
pub enum AuthConfig {
    /// A token that the operator supplies.
    Token { token: String },
    /// An AppRole login. `mount_path` is where the auth method is mounted.
    Approle { role_id: String, secret_id: String, mount_path: String },
}

/// What the contracts speak of for an [`AuthConfig`].
pub enum AuthView {
    Token { token: Seq<char> },
    Approle { role_id: Seq<char>, secret_id: Seq<char>, mount_path: Seq<char> },
}

impl View for AuthConfig {
    type V = AuthView;

    open spec fn view(&self) -> AuthView {
        match *self {
            AuthConfig::Token { token } => AuthView::Token { token: token@ },
            AuthConfig::Approle { role_id, secret_id, mount_path } => AuthView::Approle {
                role_id: role_id@,
                secret_id: secret_id@,
                mount_path: mount_path@,
            },
        }
    }
}

impl Clone for AuthConfig {
    fn clone(&self) -> (res: Self)
        ensures
            res@ == self@,
    {
        match self {
            AuthConfig::Token { token } => AuthConfig::Token { token: token.clone() },
            AuthConfig::Approle { role_id, secret_id, mount_path } => AuthConfig::Approle {
                role_id: role_id.clone(),
                secret_id: secret_id.clone(),
                mount_path: mount_path.clone(),
            },
        }
    }
}

/// One credential target and the rules for its Vault role.
#[derive(Debug, Clone, PartialEq)]
pub struct TargetConfig {
    /// The operator's fixed role: required for a static mapping, and the
    /// fallback of the others when they derive nothing.
    pub vault_role: String,
    /// How the role is selected.
    pub identity_mapping: IdentityMapping,
    /// The template of a template mapping, with `${identity.<field>}`
    /// placeholders. The fields are `subject_id`, `kind`, `trust_level`,
    /// `auth_provider`, `roles[N]`, `groups[N]`, `scopes[N]` and
    /// `attributes.<key>`.
    pub role_template: Option<String>,
    /// The most, in milliseconds, that a credential may be cached.
    pub max_cache_ttl_ms: u64,
    /// Whether the lease is revoked when the cache drops the credential. If not,
    /// nothing is sent, and Vault expires the lease.
    pub revoke_on_evict: bool,
    /// The roles that this target may issue, if they are limited. A static
    /// mapping is not subject to the limit: its role is the operator's own.
    pub allowed_roles: Option<Vec<String>>,
}

/// What the contracts speak of for a [`TargetConfig`].
pub struct TargetView {
    pub vault_role: Seq<char>,
    pub identity_mapping: IdentityMapping,
    pub role_template: Option<Seq<char>>,
    pub max_cache_ttl_ms: u64,
    pub revoke_on_evict: bool,
    pub allowed_roles: Option<Seq<Seq<char>>>,
}

impl View for TargetConfig {
    type V = TargetView;

    open spec fn view(&self) -> TargetView {
        TargetView {
            vault_role: self.vault_role@,
            identity_mapping: self.identity_mapping,
            role_template: self.role_template.deep_view(),
            max_cache_ttl_ms: self.max_cache_ttl_ms,
            revoke_on_evict: self.revoke_on_evict,
            allowed_roles: self.allowed_roles.deep_view(),
        }
    }
}

/// The time limits of the connection to Vault, in milliseconds.
#[derive(Debug, Clone, PartialEq, Eq)]
pub struct ConnectionConfig {
    pub connect_timeout_ms: u64,
    pub operation_timeout_ms: u64,
}

impl Default for ConnectionConfig {
    fn default() -> (connection: Self)
        ensures
            connection.connect_timeout_ms == 5000,
            connection.operation_timeout_ms == 10000,
    {
        ConnectionConfig {
            connect_timeout_ms: default_connect_timeout_ms(),
            operation_timeout_ms: default_operation_timeout_ms(),
        }
    }
}

/// The configuration of the plugin.
#[derive(Debug, Clone)]
pub struct VaultConfig {
    /// The Vault endpoint, `http://` or `https://`.
    pub url: String,
    /// How the plugin authenticates.
    pub auth: AuthConfig,
    /// The Enterprise namespace, sent as `X-Vault-Namespace`.
    pub namespace: Option<String>,
    /// Where the database secrets engine is mounted.
    pub db_mount: String,
    /// The targets by name.
    pub targets: StringMap<TargetConfig>,
    /// The time limits of the connection.
    pub connection: ConnectionConfig,
}

/// What the contracts speak of for a [`VaultConfig`]. The targets stand in the
/// order of their names.
pub struct ConfigView {
    pub url: Seq<char>,
    pub auth: AuthView,
    pub namespace: Option<Seq<char>>,
    pub db_mount: Seq<char>,
    pub targets: Seq<(Seq<char>, TargetView)>,
    pub connection: ConnectionConfig,
}

impl View for VaultConfig {
    type V = ConfigView;

    open spec fn view(&self) -> ConfigView {
        ConfigView {
            url: self.url@,
            auth: self.auth@,
            namespace: self.namespace.deep_view(),
            db_mount: self.db_mount@,
            targets: self.targets.entries().map_values(
                |e: (Seq<char>, TargetConfig)| (e.0, e.1@),
            ),
            connection: self.connection,
        }
    }
}

/// The default mount path of the database secrets engine.
pub fn default_db_mount() -> (mount: String)
    ensures
        mount@ == "database"@,
{
    "database".to_owned()
}

/// The default mount path of the AppRole auth method.
pub fn default_approle_mount() -> (mount: String)
    ensures
        mount@ == "approle"@,
{
    "approle".to_owned()
}

/// The default limit on how long a credential is cached: an hour.
pub fn default_max_cache_ttl_ms() -> (ms: u64)
    ensures
        ms == 3600000,
{
    3600000
}

/// The default of a switch that is on unless it is turned off.
pub fn default_true() -> (on: bool)
    ensures
        on,
{
    true
}

/// The default time limit for connecting.
pub fn default_connect_timeout_ms() -> (ms: u64)
    ensures
        ms == 5000,
{
    5000
}

/// The default time limit for one operation.
pub fn default_operation_timeout_ms() -> (ms: u64)
    ensures
        ms == 10000,
{
    10000
}

/// Why a configuration is refused.
#[derive(Debug)]
pub enum ConfigError {
    /// The text is no configuration in JSON; the decoder's own words.
    InvalidJson(String),
    EmptyUrl,
    InvalidUrlScheme,
    EmptyDbMount,
    EmptyTargets,
    StaticTargetMissingRole { name: String },
    TemplateTargetMissingTemplate { name: String },
    InvalidMaxCacheTtl { name: String, ttl: u64 },
    EmptyToken,
    EmptyRoleId,
    EmptySecretId,
    EmptyApproleMountPath,
    InvalidAllowedRole { name: String, role: String },
}

/// What the contracts speak of for a [`ConfigError`].
pub enum ConfigErrorView {
    InvalidJson(Seq<char>),
    EmptyUrl,
    InvalidUrlScheme,
    EmptyDbMount,
    EmptyTargets,
    StaticTargetMissingRole { name: Seq<char> },
    TemplateTargetMissingTemplate { name: Seq<char> },
    InvalidMaxCacheTtl { name: Seq<char>, ttl: u64 },
    EmptyToken,
    EmptyRoleId,
    EmptySecretId,
    EmptyApproleMountPath,
    InvalidAllowedRole { name: Seq<char>, role: Seq<char> },
}

impl View for ConfigError {
    type V = ConfigErrorView;

    open spec fn view(&self) -> ConfigErrorView {
        match *self {
            ConfigError::InvalidJson(reason) => ConfigErrorView::InvalidJson(reason@),
            ConfigError::EmptyUrl => ConfigErrorView::EmptyUrl,
            ConfigError::InvalidUrlScheme => ConfigErrorView::InvalidUrlScheme,
            ConfigError::EmptyDbMount => ConfigErrorView::EmptyDbMount,
            ConfigError::EmptyTargets => ConfigErrorView::EmptyTargets,
            ConfigError::StaticTargetMissingRole {
                name,
            } => ConfigErrorView::StaticTargetMissingRole { name: name@ },
            ConfigError::TemplateTargetMissingTemplate {
                name,
            } => ConfigErrorView::TemplateTargetMissingTemplate { name: name@ },
            ConfigError::InvalidMaxCacheTtl { name, ttl } => ConfigErrorView::InvalidMaxCacheTtl {
                name: name@,
                ttl,
            },
            ConfigError::EmptyToken => ConfigErrorView::EmptyToken,
            ConfigError::EmptyRoleId => ConfigErrorView::EmptyRoleId,
            ConfigError::EmptySecretId => ConfigErrorView::EmptySecretId,
            ConfigError::EmptyApproleMountPath => ConfigErrorView::EmptyApproleMountPath,
            ConfigError::InvalidAllowedRole { name, role } => ConfigErrorView::InvalidAllowedRole {
                name: name@,
                role: role@,
            },
        }
    }
}

/// The longest that a credential may be cached, in milliseconds: a day.
pub const MAX_CACHE_TTL_LIMIT_MS: u64 = 86400000;

/// An endpoint with one of the two schemes that the plugin speaks.
pub open spec fn http_url(url: Seq<char>) -> bool {
    "http://"@.is_prefix_of(url) || "https://"@.is_prefix_of(url)
}

/// What is wrong with the authentication settings, if anything is.
pub open spec fn auth_error(auth: AuthView) -> Option<ConfigErrorView> {
    match auth {
        AuthView::Token { token } => if token.len() == 0 {
            Some(ConfigErrorView::EmptyToken)
        } else {
            None
        },
        AuthView::Approle { role_id, secret_id, mount_path } => if role_id.len() == 0 {
            Some(ConfigErrorView::EmptyRoleId)
        } else if secret_id.len() == 0 {
            Some(ConfigErrorView::EmptySecretId)
        } else if blank(mount_path) {
            Some(ConfigErrorView::EmptyApproleMountPath)
        } else {
            None
        },
    }
}

/// The first of `roles` that is no role name, if there is one.
pub open spec fn first_invalid_role(roles: Seq<Seq<char>>) -> Option<Seq<char>>
    decreases roles.len(),
{
    if roles.len() == 0 {
        None
    } else if !valid_role_name(roles[0]) {
        Some(roles[0])
    } else {
        first_invalid_role(roles.drop_first())
    }
}

/// What is wrong with one target, if anything is: its mapping first, then its
/// cache limit, then its allowed roles.
pub open spec fn target_error(name: Seq<char>, target: TargetView) -> Option<ConfigErrorView> {
    if target.identity_mapping == IdentityMapping::Static && target.vault_role.len() == 0 {
        Some(ConfigErrorView::StaticTargetMissingRole { name })
    } else if target.identity_mapping == IdentityMapping::Template && (target.role_template is None
        || target.role_template->0.len() == 0) {
        Some(ConfigErrorView::TemplateTargetMissingTemplate { name })
    } else if !(1 <= target.max_cache_ttl_ms <= MAX_CACHE_TTL_LIMIT_MS) {
        Some(ConfigErrorView::InvalidMaxCacheTtl { name, ttl: target.max_cache_ttl_ms })
    } else {
        match target.allowed_roles {
            Some(roles) => match first_invalid_role(roles) {
                Some(role) => Some(ConfigErrorView::InvalidAllowedRole { name, role }),
                None => None,
            },
            None => None,
        }
    }
}

/// What is wrong with the first target that is wrong, if one is.
pub open spec fn first_target_error(
    targets: Seq<(Seq<char>, TargetView)>,
) -> Option<ConfigErrorView>
    decreases targets.len(),
{
    if targets.len() == 0 {
        None
    } else {
        match target_error(targets[0].0, targets[0].1) {
            Some(error) => Some(error),
            None => first_target_error(targets.drop_first()),
        }
    }
}

/// The first thing that is wrong with a configuration, if anything is.
pub open spec fn config_error(config: ConfigView) -> Option<ConfigErrorView> {
    if blank(config.url) {
        Some(ConfigErrorView::EmptyUrl)
    } else if !http_url(config.url) {
        Some(ConfigErrorView::InvalidUrlScheme)
    } else if blank(config.db_mount) {
        Some(ConfigErrorView::EmptyDbMount)
    } else if config.targets.len() == 0 {
        Some(ConfigErrorView::EmptyTargets)
    } else {
        match auth_error(config.auth) {
            Some(error) => Some(error),
            None => first_target_error(config.targets),
        }
    }
}

/// Agreement of a check's outcome with what the contracts say is wrong.
pub open spec fn reports(res: Result<(), ConfigError>, error: Option<ConfigErrorView>) -> bool {
    match res {
        Ok(_) => error is None,
        Err(e) => error == Some(e@),
    }
}

impl AuthConfig {
    /// Checks the authentication settings.
    fn validate(&self) -> (res: Result<(), ConfigError>)
        ensures
            reports(res, auth_error(self@)),
    {
        match self {
            AuthConfig::Token { token } => {
                if token.as_str().is_empty() {
                    return Err(ConfigError::EmptyToken);
                }
            },
            AuthConfig::Approle { role_id, secret_id, mount_path } => {
                if role_id.as_str().is_empty() {
                    return Err(ConfigError::EmptyRoleId);
                }
                if secret_id.as_str().is_empty() {
                    return Err(ConfigError::EmptySecretId);
                }
                if is_blank(mount_path.as_str()) {
                    return Err(ConfigError::EmptyApproleMountPath);
                }
            },
        }
        Ok(())
    }
}

impl TargetConfig {
    /// Checks the target called `name`.
    fn validate(&self, name: &str) -> (res: Result<(), ConfigError>)
        ensures
            reports(res, target_error(name@, self@)),
    {
        match self.identity_mapping {
            IdentityMapping::Static => {
                if self.vault_role.as_str().is_empty() {
                    return Err(ConfigError::StaticTargetMissingRole { name: name.to_owned() });
                }
            },
            IdentityMapping::Template => {
                let missing = match &self.role_template {
                    Some(template) => template.as_str().is_empty(),
                    None => true,
                };
                if missing {
                    return Err(
                        ConfigError::TemplateTargetMissingTemplate { name: name.to_owned() },
                    );
                }
            },
            // Where these derive nothing they fall back to `vault_role`, which
            // may be empty: the caller is then not authorized.
            IdentityMapping::SubjectId | IdentityMapping::FromRole => {},
        }
        if self.max_cache_ttl_ms == 0 || self.max_cache_ttl_ms > MAX_CACHE_TTL_LIMIT_MS {
            return Err(
                ConfigError::InvalidMaxCacheTtl {
                    name: name.to_owned(),
                    ttl: self.max_cache_ttl_ms,
                },
            );
        }
        if let Some(allowed) = &self.allowed_roles {
            let ghost roles = allowed.deep_view();
            let mut i: usize = 0;
            assert(roles.skip(0) =~= roles);
            while i < allowed.len()
                invariant
                    i <= allowed@.len(),
                    roles == allowed.deep_view(),
                    roles.len() == allowed@.len(),
                    first_invalid_role(roles) == first_invalid_role(roles.skip(i as int)),
                    self.allowed_roles == Some(*allowed),
                    self@.allowed_roles == Some(roles),
                    target_error(name@, self@) == match first_invalid_role(roles) {
                        Some(role) => Some(
                            ConfigErrorView::InvalidAllowedRole { name: name@, role },
                        ),
                        None => None,
                    },
                decreases allowed@.len() - i,
            {
                assert(roles.skip(i as int)[0] == allowed@[i as int]@);
                if !is_valid_role_name(allowed[i].as_str()) {
                    return Err(
                        ConfigError::InvalidAllowedRole {
                            name: name.to_owned(),
                            role: allowed[i].clone(),
                        },
                    );
                }
                assert(roles.skip(i as int).drop_first() =~= roles.skip(i + 1));
                i = i + 1;
            }
        }
        Ok(())
    }
}

impl VaultConfig {
    /// Checks the configuration, and reports the first thing that is wrong
    /// with it. Targets are checked in the order of their names, which rise.
    pub fn validate(&self) -> (res: Result<(), ConfigError>)
        ensures
            reports(res, config_error(self@)),
            keys_rise(self@.targets),
    {
        let count: usize = self.targets.len();
        if is_blank(self.url.as_str()) {
            return Err(ConfigError::EmptyUrl);
        }
        if !starts_with(self.url.as_str(), "http://") && !starts_with(
            self.url.as_str(),
            "https://",
        ) {
            return Err(ConfigError::InvalidUrlScheme);
        }
        if is_blank(self.db_mount.as_str()) {
            return Err(ConfigError::EmptyDbMount);
        }
        if count == 0 {
            return Err(ConfigError::EmptyTargets);
        }
        match self.auth.validate() {
            Err(error) => return Err(error),
            Ok(_) => {},
        }
        let ghost targets = self@.targets;
        let mut i: usize = 0;
        assert(targets.skip(0) =~= targets);
        while i < count
            invariant
                i <= count,
                targets == self@.targets,
                keys_rise(targets),
                targets.len() == count == self.targets.entries().len(),
                config_error(self@) == first_target_error(targets.skip(i as int)),
            decreases targets.len() - i,
        {
            assert(targets.skip(i as int)[0] == targets[i as int]);
            match self.targets.value_at(i).validate(self.targets.key_at(i)) {
                Err(error) => return Err(error),
                Ok(_) => {},
            }
            assert(targets.skip(i as int).drop_first() =~= targets.skip(i + 1));
            i = i + 1;
        }
        Ok(())
    }

    /// Takes what the JSON decoder made of the operator's text: its value, if
    /// the value meets the rules, and otherwise why there is no configuration.
    pub fn parse(decoded: Result<VaultConfig, String>) -> (res: Result<VaultConfig, ConfigError>)
        ensures
            match decoded {
                Err(reason) => res is Err && res->Err_0@ == ConfigErrorView::InvalidJson(reason@),
                Ok(config) => match config_error(config@) {
                    None => res == Ok::<VaultConfig, ConfigError>(config),
                    Some(error) => res is Err && res->Err_0@ == error,
                },
            },
    {
        match decoded {
            Err(reason) => Err(ConfigError::InvalidJson(reason)),
            Ok(config) => match config.validate() {
                Err(error) => Err(error),
                Ok(_) => Ok(config),
            },
        }
    }
}

/// The words for a refused configuration.
pub open spec fn config_error_message(error: ConfigErrorView) -> Seq<char> {
    match error {
        ConfigErrorView::InvalidJson(reason) =>
            "invalid credential.vault-dynamic-db config JSON: "@ + reason,
        ConfigErrorView::EmptyUrl => "credential.vault-dynamic-db: url is empty"@,
        ConfigErrorView::InvalidUrlScheme =>
            "credential.vault-dynamic-db: url must start with http:// or https://"@,
        ConfigErrorView::EmptyDbMount => "credential.vault-dynamic-db: db_mount is empty"@,
        ConfigErrorView::EmptyTargets =>
            "credential.vault-dynamic-db: targets must be non-empty"@,
        ConfigErrorView::StaticTargetMissingRole { name } =>
            "credential.vault-dynamic-db: target `"@ + name
            + "` has identity_mapping=static but vault_role is empty"@,
        ConfigErrorView::TemplateTargetMissingTemplate { name } =>
            "credential.vault-dynamic-db: target `"@ + name
            + "` has identity_mapping=template but role_template is missing"@,
        ConfigErrorView::InvalidMaxCacheTtl { name, ttl } =>
            "credential.vault-dynamic-db: target `"@ + name + "` has max_cache_ttl_ms="@
            + decimal(ttl as nat) + "; must be 1..=86_400_000 (1 ms to 1 day)"@,
        ConfigErrorView::EmptyToken => "credential.vault-dynamic-db: auth.token is empty"@,
        ConfigErrorView::EmptyRoleId => "credential.vault-dynamic-db: auth.role_id is empty"@,
        ConfigErrorView::EmptySecretId => "credential.vault-dynamic-db: auth.secret_id is empty"@,
        ConfigErrorView::EmptyApproleMountPath =>
            "credential.vault-dynamic-db: auth.mount_path is empty"@,
        ConfigErrorView::InvalidAllowedRole { name, role } =>
            "credential.vault-dynamic-db: target `"@ + name + "` allowed_roles entry `"@ + role
            + "` is not a valid Vault role name (allowed: A-Z a-z 0-9 _ -, 1..=128 chars)"@,
    }
}

impl ConfigError {
    /// Says what is wrong with the configuration.
    pub fn message(&self) -> (text: String)
        ensures
            text@ == config_error_message(self@),
    {
        match self {
            ConfigError::InvalidJson(reason) => {
                let mut text = "invalid credential.vault-dynamic-db config JSON: ".to_owned();
                text.append(reason.as_str());
                text
            },
            ConfigError::EmptyUrl => "credential.vault-dynamic-db: url is empty".to_owned(),
            ConfigError::InvalidUrlScheme =>
                "credential.vault-dynamic-db: url must start with http:// or https://".to_owned(),
            ConfigError::EmptyDbMount =>
                "credential.vault-dynamic-db: db_mount is empty".to_owned(),
            ConfigError::EmptyTargets =>
                "credential.vault-dynamic-db: targets must be non-empty".to_owned(),
            ConfigError::StaticTargetMissingRole { name } => {
                let mut text = "credential.vault-dynamic-db: target `".to_owned();
                text.append(name.as_str());
                text.append("` has identity_mapping=static but vault_role is empty");
                text
            },
            ConfigError::TemplateTargetMissingTemplate { name } => {
                let mut text = "credential.vault-dynamic-db: target `".to_owned();
                text.append(name.as_str());
                text.append("` has identity_mapping=template but role_template is missing");
                text
            },
            ConfigError::InvalidMaxCacheTtl { name, ttl } => {
                let mut text = "credential.vault-dynamic-db: target `".to_owned();
                text.append(name.as_str());
                text.append("` has max_cache_ttl_ms=");
                text.append(decimal_text(*ttl).as_str());
                text.append("; must be 1..=86_400_000 (1 ms to 1 day)");
                text
            },
            ConfigError::EmptyToken =>
                "credential.vault-dynamic-db: auth.token is empty".to_owned(),
            ConfigError::EmptyRoleId =>
                "credential.vault-dynamic-db: auth.role_id is empty".to_owned(),
            ConfigError::EmptySecretId =>
                "credential.vault-dynamic-db: auth.secret_id is empty".to_owned(),
            ConfigError::EmptyApproleMountPath =>
                "credential.vault-dynamic-db: auth.mount_path is empty".to_owned(),
            ConfigError::InvalidAllowedRole { name, role } => {
                let mut text = "credential.vault-dynamic-db: target `".to_owned();
                text.append(name.as_str());
                text.append("` allowed_roles entry `");
                text.append(role.as_str());
                text.append(
                    "` is not a valid Vault role name (allowed: A-Z a-z 0-9 _ -, 1..=128 chars)",
                );
                text
            },
        }
    }
}

/// Authentication settings with nothing missing.
pub open spec fn auth_complete(auth: AuthView) -> bool {
    match auth {
        AuthView::Token { token } => token.len() > 0,
        AuthView::Approle { role_id, secret_id, mount_path } => {
            role_id.len() > 0 && secret_id.len() > 0 && !blank(mount_path)
        },
    }
}

/// A target that meets the rules.
pub open spec fn target_valid(target: TargetView) -> bool {
    &&& target.identity_mapping == IdentityMapping::Static ==> target.vault_role.len() > 0
    &&& target.identity_mapping == IdentityMapping::Template ==> target.role_template is Some
        && target.role_template->0.len() > 0
    &&& 1 <= target.max_cache_ttl_ms <= MAX_CACHE_TTL_LIMIT_MS
    &&& target.allowed_roles is Some ==> forall|i: int|
        0 <= i < target.allowed_roles->0.len() ==> valid_role_name(
            #[trigger] target.allowed_roles->0[i],
        )
}

proof fn lemma_first_invalid_role(roles: Seq<Seq<char>>)
    ensures
        first_invalid_role(roles) is None <==> forall|i: int|
            0 <= i < roles.len() ==> valid_role_name(#[trigger] roles[i]),
    decreases roles.len(),
{
    if roles.len() > 0 {
        let rest = roles.drop_first();
        lemma_first_invalid_role(rest);
        if first_invalid_role(roles) is None {
            assert forall|i: int| 0 <= i < roles.len() implies valid_role_name(
                #[trigger] roles[i],
            ) by {
                if i > 0 {
                    assert(rest[i - 1] == roles[i]);
                }
            }
        } else if valid_role_name(roles[0]) {
            let i = choose|i: int| 0 <= i < rest.len() && !valid_role_name(#[trigger] rest[i]);
            assert(roles[i + 1] == rest[i]);
        }
    }
}

proof fn lemma_target_error(name: Seq<char>, target: TargetView)
    ensures
        target_error(name, target) is None <==> target_valid(target),
{
    if target.allowed_roles is Some {
        lemma_first_invalid_role(target.allowed_roles->0);
    }
}

/// The error of the targets, if there is one, is that of a target before which
/// all targets are valid.
proof fn lemma_first_target_error(targets: Seq<(Seq<char>, TargetView)>)
    ensures
        first_target_error(targets) is None <==> forall|i: int|
            0 <= i < targets.len() ==> target_valid((#[trigger] targets[i]).1),
        first_target_error(targets) is Some ==> exists|i: int|
            0 <= i < targets.len() && first_target_error(targets) == target_error(
                (#[trigger] targets[i]).0,
                targets[i].1,
            ) && forall|j: int| 0 <= j < i ==> target_valid((#[trigger] targets[j]).1),
    decreases targets.len(),
{
    if targets.len() > 0 {
        let rest = targets.drop_first();
        lemma_first_target_error(rest);
        lemma_target_error(targets[0].0, targets[0].1);
        if target_valid(targets[0].1) {
            if first_target_error(rest) is None {
                assert forall|i: int| 0 <= i < targets.len() implies target_valid(
                    (#[trigger] targets[i]).1,
                ) by {
                    if i > 0 {
                        assert(rest[i - 1] == targets[i]);
                    }
                }
            } else {
                let i = choose|i: int|
                    0 <= i < rest.len() && first_target_error(rest) == target_error(
                        (#[trigger] rest[i]).0,
                        rest[i].1,
                    ) && forall|j: int| 0 <= j < i ==> target_valid((#[trigger] rest[j]).1);
                lemma_target_error(rest[i].0, rest[i].1);
                assert(targets[i + 1] == rest[i]);
                assert forall|j: int| 0 <= j < i + 1 implies target_valid(
                    (#[trigger] targets[j]).1,
                ) by {
                    if j > 0 {
                        assert(rest[j - 1] == targets[j]);
                    }
                }
            }
        } else {
            assert(!target_valid(targets[0].1));
        }
    }
}

/// A configuration is taken if and only if its endpoint is an HTTP URL, its
/// mount path is not blank, its authentication settings are complete, and it
/// has targets, all of them valid.
pub proof fn law_config_accepted(config: ConfigView)
    ensures
        config_error(config) is None <==> {
            &&& !blank(config.url)
            &&& http_url(config.url)
            &&& !blank(config.db_mount)
            &&& auth_complete(config.auth)
            &&& config.targets.len() > 0
            &&& forall|i: int|
                0 <= i < config.targets.len() ==> target_valid((#[trigger] config.targets[i]).1)
        },
{
    lemma_first_target_error(config.targets);
}

/// Where all but the targets is in order, the error that is reported is that of
/// the invalid target whose name comes first.
pub proof fn law_lowest_invalid_target_is_reported(config: ConfigView, k: int)
    requires
        keys_rise(config.targets),
        !blank(config.url),
        http_url(config.url),
        !blank(config.db_mount),
        auth_complete(config.auth),
        0 <= k < config.targets.len(),
        !target_valid(config.targets[k].1),
        forall|j: int|
            0 <= j < config.targets.len() && text_lt(
                (#[trigger] config.targets[j]).0,
                config.targets[k].0,
            ) ==> target_valid(config.targets[j].1),
    ensures
        config_error(config) is Some,
        config_error(config) == target_error(config.targets[k].0, config.targets[k].1),
{
    let targets = config.targets;
    lemma_first_target_error(targets);
    let i = choose|i: int|
        0 <= i < targets.len() && first_target_error(targets) == target_error(
            (#[trigger] targets[i]).0,
            targets[i].1,
        ) && forall|j: int| 0 <= j < i ==> target_valid((#[trigger] targets[j]).1);
    lemma_target_error(targets[i].0, targets[i].1);
    if i < k {
        assert(text_lt(targets[i].0, targets[k].0));
    } else if k < i {
        assert(target_valid(targets[k].1));
    }
}

/// What is wrong with a target. A static mapping needs a role and a template
/// mapping a template; the cache limit is a day at most and not zero; and the
/// first of the allowed roles that is no role name is the one that is named.
/// Nothing else is wrong with a target.
pub proof fn law_target_rules(name: Seq<char>, target: TargetView)
    ensures
        ({
            let error = target_error(name, target);
            let no_role = target.identity_mapping == IdentityMapping::Static
                && target.vault_role.len() == 0;
            let no_template = target.identity_mapping == IdentityMapping::Template && (
            target.role_template is None || target.role_template->0.len() == 0);
            let no_limit = target.max_cache_ttl_ms == 0 || target.max_cache_ttl_ms > 86400000;
            let ttl = target.max_cache_ttl_ms;
            &&& no_role ==> error == Some(ConfigErrorView::StaticTargetMissingRole { name })
            &&& no_template ==> error == Some(
                ConfigErrorView::TemplateTargetMissingTemplate { name },
            )
            &&& !no_role && !no_template && no_limit ==> error == Some(
                ConfigErrorView::InvalidMaxCacheTtl { name, ttl },
            )
            &&& !no_role && !no_template && !no_limit ==> {
                &&& target.allowed_roles is None ==> error is None
                &&& target.allowed_roles matches Some(roles) ==> {
                    &&& error is None <==> forall|i: int|
                        0 <= i < roles.len() ==> valid_role_name(#[trigger] roles[i])
                    &&& error is Some ==> exists|i: int|
                        0 <= i < roles.len() && !valid_role_name(#[trigger] roles[i]) && error
                            == Some(
                            ConfigErrorView::InvalidAllowedRole { name, role: roles[i] },
                        ) && forall|j: int| 0 <= j < i ==> valid_role_name(#[trigger] roles[j])
                }
            }
        }),
{
    if target.allowed_roles is Some {
        lemma_first_invalid_role(target.allowed_roles->0);
        lemma_which_invalid_role(target.allowed_roles->0);
    }
}

proof fn lemma_which_invalid_role(roles: Seq<Seq<char>>)
    ensures
        first_invalid_role(roles) matches Some(role) ==> exists|i: int|
            0 <= i < roles.len() && !valid_role_name(#[trigger] roles[i]) && roles[i] == role
                && forall|j: int| 0 <= j < i ==> valid_role_name(#[trigger] roles[j]),
    decreases roles.len(),
{
    if roles.len() > 0 {
        let rest = roles.drop_first();
        lemma_which_invalid_role(rest);
        if valid_role_name(roles[0]) {
            if first_invalid_role(rest) is Some {
                let i = choose|i: int|
                    0 <= i < rest.len() && !valid_role_name(#[trigger] rest[i]) && rest[i]
                        == first_invalid_role(rest)->0 && forall|j: int|
                        0 <= j < i ==> valid_role_name(#[trigger] rest[j]);
                assert(roles[i + 1] == rest[i]);
                assert forall|j: int| 0 <= j < i + 1 implies valid_role_name(
                    #[trigger] roles[j],
                ) by {
                    if j > 0 {
                        assert(rest[j - 1] == roles[j]);
                    }
                }
            }
        } else {
            assert(!valid_role_name(roles[0]));
        }
    }
}

/// What is wrong with a configuration, in the order in which it is looked for:
/// the endpoint, its scheme, the mount path, whether there are targets, the
/// authentication settings, and then the targets, of which the first that is
/// wrong counts.
pub proof fn law_config_rules(config: ConfigView)
    ensures
        ({
            let error = config_error(config);
            let no_url = blank(config.url);
            let no_scheme = !"http://"@.is_prefix_of(config.url) && !"https://"@.is_prefix_of(
                config.url,
            );
            let no_mount = blank(config.db_mount);
            let no_targets = config.targets.len() == 0;
            let top = !no_url && !no_scheme && !no_mount && !no_targets;
            let auth = match config.auth {
                AuthView::Token { token } => token.len() > 0,
                AuthView::Approle { role_id, secret_id, mount_path } => role_id.len() > 0
                    && secret_id.len() > 0 && !blank(mount_path),
            };
            &&& no_url ==> error == Some(ConfigErrorView::EmptyUrl)
            &&& !no_url && no_scheme ==> error == Some(ConfigErrorView::InvalidUrlScheme)
            &&& !no_url && !no_scheme && no_mount ==> error == Some(ConfigErrorView::EmptyDbMount)
            &&& !no_url && !no_scheme && !no_mount && no_targets ==> error == Some(
                ConfigErrorView::EmptyTargets,
            )
            &&& top && !auth ==> match config.auth {
                AuthView::Token { .. } => error == Some(ConfigErrorView::EmptyToken),
                AuthView::Approle { role_id, secret_id, .. } => {
                    &&& role_id.len() == 0 ==> error == Some(ConfigErrorView::EmptyRoleId)
                    &&& role_id.len() > 0 && secret_id.len() == 0 ==> error == Some(
                        ConfigErrorView::EmptySecretId,
                    )
                    &&& role_id.len() > 0 && secret_id.len() > 0 ==> error == Some(
                        ConfigErrorView::EmptyApproleMountPath,
                    )
                },
            }
            &&& top && auth ==> {
                &&& error is None <==> forall|i: int|
                    0 <= i < config.targets.len() ==> target_error(
                        (#[trigger] config.targets[i]).0,
                        config.targets[i].1,
                    ) is None
                &&& error is Some ==> exists|i: int|
                    0 <= i < config.targets.len() && error == target_error(
                        (#[trigger] config.targets[i]).0,
                        config.targets[i].1,
                    ) && forall|j: int|
                        0 <= j < i ==> target_error(
                            (#[trigger] config.targets[j]).0,
                            config.targets[j].1,
                        ) is None
            }
        }),
{
    lemma_which_target_error(config.targets);
}

proof fn lemma_which_target_error(targets: Seq<(Seq<char>, TargetView)>)
    ensures
        first_target_error(targets) is None <==> forall|i: int|
            0 <= i < targets.len() ==> target_error((#[trigger] targets[i]).0, targets[i].1)
                is None,
        first_target_error(targets) is Some ==> exists|i: int|
            0 <= i < targets.len() && first_target_error(targets) == target_error(
                (#[trigger] targets[i]).0,
                targets[i].1,
            ) && forall|j: int|
                0 <= j < i ==> target_error((#[trigger] targets[j]).0, targets[j].1) is None,
{
    lemma_first_target_error(targets);
    assert forall|i: int| 0 <= i < targets.len() implies (target_error(
        (#[trigger] targets[i]).0,
        targets[i].1,
    ) is None <==> target_valid(targets[i].1)) by {
        lemma_target_error(targets[i].0, targets[i].1);
    }
    if first_target_error(targets) is None {
        assert forall|i: int| 0 <= i < targets.len() implies target_error(
            (#[trigger] targets[i]).0,
            targets[i].1,
        ) is None by {
            assert(target_valid(targets[i].1));
        }
    } else {
        let i = choose|i: int|
            0 <= i < targets.len() && first_target_error(targets) == target_error(
                (#[trigger] targets[i]).0,
                targets[i].1,
            ) && forall|j: int| 0 <= j < i ==> target_valid((#[trigger] targets[j]).1);
        assert(target_error(targets[i].0, targets[i].1) is Some);
        assert forall|j: int| 0 <= j < i implies target_error(
            (#[trigger] targets[j]).0,
            targets[j].1,
        ) is None by {
            assert(target_valid(targets[j].1));
        }
    }
}

/// A check reports success exactly if nothing is wrong, and otherwise what is.
pub proof fn law_reports(res: Result<(), ConfigError>, error: Option<ConfigErrorView>)
    ensures
        reports(res, error) && res is Ok ==> error is None,
        reports(res, error) && res is Err ==> error is Some && error->0 == res->Err_0@,
        error is None && reports(res, error) ==> res is Ok,
{
}

/// The words for an error name the target, the role, the limit or the decoder's
/// reason that the error is about, whole.
pub proof fn law_config_error_words(
    name: Seq<char>,
    role: Seq<char>,
    reason: Seq<char>,
    ttl: u64,
)
    ensures
        ({
            let target = "credential.vault-dynamic-db: target `"@ + name;
            &&& config_error_message(ConfigErrorView::InvalidJson(reason))
                == "invalid credential.vault-dynamic-db config JSON: "@ + reason
            &&& config_error_message(ConfigErrorView::StaticTargetMissingRole { name }) == target
                + "` has identity_mapping=static but vault_role is empty"@
            &&& config_error_message(ConfigErrorView::TemplateTargetMissingTemplate { name })
                == target + "` has identity_mapping=template but role_template is missing"@
            &&& config_error_message(ConfigErrorView::InvalidMaxCacheTtl { name, ttl }) == target
                + "` has max_cache_ttl_ms="@ + decimal(ttl as nat)
                + "; must be 1..=86_400_000 (1 ms to 1 day)"@
            &&& config_error_message(ConfigErrorView::InvalidAllowedRole { name, role }) == target
                + "` allowed_roles entry `"@ + role
                + "` is not a valid Vault role name (allowed: A-Z a-z 0-9 _ -, 1..=128 chars)"@
        }),
{
}

/// The contracts speak of all of a target.
pub proof fn law_target_is_viewed_whole(target: TargetConfig, i: int)
    ensures
        target@.vault_role == target.vault_role@,
        target@.identity_mapping == target.identity_mapping,
        target@.role_template is Some <==> target.role_template is Some,
        target.role_template matches Some(template) ==> target@.role_template == Some(template@),
        target@.max_cache_ttl_ms == target.max_cache_ttl_ms,
        target@.revoke_on_evict == target.revoke_on_evict,
        target@.allowed_roles is Some <==> target.allowed_roles is Some,
        target.allowed_roles matches Some(roles) ==> {
            &&& target@.allowed_roles->0.len() == roles@.len()
            &&& 0 <= i < roles@.len() ==> target@.allowed_roles->0[i] == roles@[i]@
        },
{
}

/// The contracts speak of all of a configuration.
pub proof fn law_config_is_viewed_whole(config: VaultConfig, i: int)
    ensures
        config@.url == config.url@,
        config.auth matches AuthConfig::Token { token } ==> config@.auth == (AuthView::Token {
            token: token@,
        }),
        config.auth matches AuthConfig::Approle { role_id, secret_id, mount_path } ==> config@.auth
            == (AuthView::Approle {
            role_id: role_id@,
            secret_id: secret_id@,
            mount_path: mount_path@,
        }),
        config@.namespace is Some <==> config.namespace is Some,
        config.namespace matches Some(namespace) ==> config@.namespace == Some(namespace@),
        config@.db_mount == config.db_mount@,
        config@.targets.len() == config.targets.entries().len(),
        0 <= i < config@.targets.len() ==> config@.targets[i] == (
            config.targets.entries()[i].0,
            config.targets.entries()[i].1@,
        ),
        config@.connection == config.connection,
{
}

} // verus!
