//! The plugin: its setup, its plan for a caller, and the credential that comes of it.

use crate::authorization::{authorize_role, authorized_role, Refusal, RefusalView};
use crate::client::{client_of, VaultClient};
use crate::config::{
    config_error, target_valid, ConfigError, ConfigErrorView, ConfigView, TargetConfig, TargetView,
    VaultConfig,
};
use crate::credential::{IssuedCredential, IssuedCredentialView};
use crate::identity_mapping::{IdentityView, PluginIdentity};
use crate::issue_call::{DbCreds, DbCredsView};
use crate::string_map::{
    entry_map, keys_rise, lemma_entry_is_mapped, lemma_entry_map_values, StringMap,
};
use vstd::prelude::*;

verus! {

/// The cache time of a credential, in seconds: the operator's limit in whole
/// seconds, one second at least, and never more than the lease.
pub open spec fn capped_ttl(lease_secs: int, max_cache_ttl_ms: int) -> int {
    let limit = if max_cache_ttl_ms / 1000 < 1 { 1 } else { max_cache_ttl_ms / 1000 };
    if limit < lease_secs {
        limit
    } else {
        lease_secs
    }
}

/// Caps the cache time of a credential at the operator's limit. The limit is in
/// milliseconds, the lease and the cache in seconds. A limit below a second
/// counts as a second, so that it does not make the credential expire at once.
pub fn cap_ttl_seconds(lease_secs: u64, max_cache_ttl_ms: u64) -> (ttl: u64)
    ensures
        ttl == capped_ttl(lease_secs as int, max_cache_ttl_ms as int),
{
    let seconds: u64 = max_cache_ttl_ms / 1000;
    let limit: u64 = if seconds < 1 { 1 } else { seconds };
    if limit < lease_secs {
        limit
    } else {
        lease_secs
    }
}

/// A credential is never cached past its lease, nor past the operator's limit
/// rounded down to seconds, but for the one-second floor; it is cached for a
/// second at least wherever its lease lasts one; and a longer lease or a higher
/// limit never shortens the time.
pub proof fn law_cap_ttl(lease: nat, lease2: nat, ms: nat, ms2: nat)
    ensures
        0 <= capped_ttl(lease as int, ms as int) <= lease,
        ms >= 1000 ==> capped_ttl(lease as int, ms as int) * 1000 <= ms,
        ms < 1000 ==> capped_ttl(lease as int, ms as int) <= 1,
        lease >= 1 ==> capped_ttl(lease as int, ms as int) >= 1,
        lease <= lease2 && ms <= ms2 ==> capped_ttl(lease as int, ms as int) <= capped_ttl(
            lease2 as int,
            ms2 as int,
        ),
{
}

/// With a target that passed validation nothing is cached for more than a day.
pub proof fn law_cached_a_day_at_most(lease: nat, target: TargetView)
    requires
        target_valid(target),
    ensures
        capped_ttl(lease as int, target.max_cache_ttl_ms as int) <= 86400,
{
}

/// The id under which the host knows the plugin.
pub const PLUGIN_ID: &'static str = "dev.mcpg.credential.vault-dynamic-db";

/// What kind of plugin the host has before it.
#[derive(Debug, Clone, Copy, PartialEq, Eq, Structural)]
pub enum PluginClass {
    CredentialIssuer,
}

/// How the plugin introduces itself to its host.
#[derive(Debug)]
pub struct PluginManifest {
    pub id: String,
    pub version: String,
    pub name: String,
    pub plugin_class: PluginClass,
    pub protocol_version: String,
    pub license: Option<String>,
    pub required_capabilities: Vec<String>,
    pub tags: Vec<String>,
    pub provides: Vec<String>,
    pub provides_schemes: Vec<String>,
    pub module_path_prefix: String,
    pub backend_profile: Option<String>,
}

impl PluginManifest {
    /// The manifest of this plugin in a given version and module.
    pub open spec fn introduces(
        &self,
        version: Seq<char>,
        module_path_prefix: Seq<char>,
    ) -> bool {
        &&& self.id@ == PLUGIN_ID@
        &&& self.version@ == version
        &&& self.name@ == "Vault Dynamic Database Credentials"@
        &&& self.plugin_class == PluginClass::CredentialIssuer
        &&& self.protocol_version@ == "1.0"@
        &&& self.license is None
        &&& self.required_capabilities@.len() == 0
        &&& self.tags@.len() == 0
        &&& self.provides@.len() == 0
        &&& self.provides_schemes@.len() == 0
        &&& self.module_path_prefix@ == module_path_prefix
        &&& self.backend_profile is None
    }
}

/// The plugin: its manifest, its configuration and its Vault client.
#[derive(Debug)]
pub struct VaultDynamicDbPlugin {
    pub manifest: PluginManifest,
    pub config: VaultConfig,
    pub client: VaultClient,
}

/// What was decided before Vault is asked: the role, how long its credentials
/// may be cached, and whether their lease is revoked when the cache drops them.
#[derive(Debug)]
pub struct IssuePlan {
    pub role: String,
    pub max_cache_ttl_ms: u64,
    pub revoke_on_evict: bool,
}

/// What the contracts speak of for an [`IssuePlan`].
pub struct PlanView {
    pub role: Seq<char>,
    pub max_cache_ttl_ms: u64,
    pub revoke_on_evict: bool,
}

impl View for IssuePlan {
    type V = PlanView;

    open spec fn view(&self) -> PlanView {
        PlanView {
            role: self.role@,
            max_cache_ttl_ms: self.max_cache_ttl_ms,
            revoke_on_evict: self.revoke_on_evict,
        }
    }
}

/// The plan for a caller and a target's name, or why there is none.
pub open spec fn plan_of(config: ConfigView, identity: IdentityView, name: Seq<char>) -> Result<
    PlanView,
    RefusalView,
> {
    let targets = entry_map(config.targets);
    if !targets.contains_key(name) {
        Err(RefusalView::UnknownTarget { target: name })
    } else {
        match authorized_role(identity, targets[name]) {
            Ok(role) => Ok(
                PlanView {
                    role,
                    max_cache_ttl_ms: targets[name].max_cache_ttl_ms,
                    revoke_on_evict: targets[name].revoke_on_evict,
                },
            ),
            Err(refusal) => Err(refusal),
        }
    }
}

/// The credential that the host gets for a plan, from what Vault issued.
pub open spec fn issued_for(
    config: ConfigView,
    plan: PlanView,
    creds: DbCredsView,
    issued_at: Seq<char>,
) -> IssuedCredentialView {
    IssuedCredentialView {
        value: None,
        parts: map!["username"@ => creds.username, "password"@ => creds.password],
        ttl_seconds: capped_ttl(creds.lease_duration as int, plan.max_cache_ttl_ms as int) as u64,
        lease_id: Some(creds.lease_id),
        issued_at,
        metadata: map!["vault.role"@ => plan.role, "vault.mount"@ => config.db_mount],
    }
}

/// A map of two entries.
fn pair_map(key1: &str, value1: String, key2: &str, value2: String) -> (map: StringMap<String>)
    requires
        key1@ != key2@,
    ensures
        map@.map_values(|value: String| value@) == map![key1@ => value1@, key2@ => value2@],
{
    let mut map: StringMap<String> = StringMap::new();
    map.insert(key1.to_owned(), value1);
    map.insert(key2.to_owned(), value2);
    assert(map@.map_values(|value: String| value@) =~= map![key1@ => value1@, key2@ => value2@]);
    map
}

impl VaultDynamicDbPlugin {
    /// Sets the plugin up from what the JSON decoder made of the operator's
    /// text. Without a valid configuration there is no plugin.
    pub fn from_config_json(
        decoded: Result<VaultConfig, String>,
        version: &str,
        module_path_prefix: &str,
    ) -> (res: Result<Self, ConfigError>)
        ensures
            match decoded {
                Err(reason) => res is Err && res->Err_0@ == ConfigErrorView::InvalidJson(reason@),
                Ok(config) => match config_error(config@) {
                    None => {
                        &&& res is Ok
                        &&& res->Ok_0.config == config
                        &&& res->Ok_0.client@ == client_of(config@)
                        &&& res->Ok_0.manifest.introduces(version@, module_path_prefix@)
                    },
                    Some(error) => res is Err && res->Err_0@ == error,
                },
            },
    {
        match VaultConfig::parse(decoded) {
            Ok(config) => Ok(Self::from_validated_config(config, version, module_path_prefix)),
            Err(error) => Err(error),
        }
    }

    /// Sets the plugin up from a configuration that was found valid.
    pub fn from_validated_config(
        config: VaultConfig,
        version: &str,
        module_path_prefix: &str,
    ) -> (plugin: Self)
        ensures
            plugin.config == config,
            plugin.client@ == client_of(config@),
            plugin.manifest.introduces(version@, module_path_prefix@),
    {
        let client = VaultClient::new(&config);
        VaultDynamicDbPlugin {
            manifest: PluginManifest {
                id: PLUGIN_ID.to_owned(),
                version: version.to_owned(),
                name: "Vault Dynamic Database Credentials".to_owned(),
                plugin_class: PluginClass::CredentialIssuer,
                protocol_version: "1.0".to_owned(),
                license: None,
                required_capabilities: Vec::new(),
                tags: Vec::new(),
                provides: Vec::new(),
                provides_schemes: Vec::new(),
                module_path_prefix: module_path_prefix.to_owned(),
                backend_profile: None,
            },
            config,
            client,
        }
    }

    /// Decides which role's credentials `identity` gets from `target`, before
    /// Vault is asked for anything.
    pub fn plan_issue(&self, identity: &PluginIdentity, target: &str) -> (res: Result<
        IssuePlan,
        Refusal,
    >)
        ensures
            match res {
                Ok(plan) => plan_of(self.config@, identity@, target@) == Ok::<
                    PlanView,
                    RefusalView,
                >(plan@),
                Err(refusal) => plan_of(self.config@, identity@, target@) == Err::<
                    PlanView,
                    RefusalView,
                >(refusal@),
            },
    {
        let found = self.config.targets.get(target);
        proof {
            let f = |t: TargetConfig| t@;
            lemma_entry_map_values(self.config.targets.entries(), f);
            assert(self.config@.targets =~= self.config.targets.entries().map_values(
                |e: (Seq<char>, TargetConfig)| (e.0, f(e.1)),
            ));
        }
        match found {
            Some(target_config) => match authorize_role(identity, target_config) {
                Ok(role) => Ok(
                    IssuePlan {
                        role,
                        max_cache_ttl_ms: target_config.max_cache_ttl_ms,
                        revoke_on_evict: target_config.revoke_on_evict,
                    },
                ),
                Err(refusal) => Err(refusal),
            },
            None => Err(Refusal::UnknownTarget { target: target.to_owned() }),
        }
    }

    /// The credential for the host, issued at a given time.
    pub fn credential_issued_at(&self, plan: &IssuePlan, creds: DbCreds, issued_at: String) -> (res:
        IssuedCredential)
        ensures
            res@ == issued_for(self.config@, plan@, creds@, issued_at@),
    {
        proof {
            reveal_strlit("username");
            reveal_strlit("password");
            reveal_strlit("vault.role");
            reveal_strlit("vault.mount");
            assert("username"@[0] != "password"@[0]);
            assert("vault.role"@.len() != "vault.mount"@.len());
        }
        let ttl_seconds: u64 = cap_ttl_seconds(creds.lease_duration, plan.max_cache_ttl_ms);
        IssuedCredential {
            value: None,
            parts: pair_map("username", creds.username, "password", creds.password),
            ttl_seconds,
            lease_id: Some(creds.lease_id),
            issued_at,
            metadata: pair_map(
                "vault.role",
                plan.role.clone(),
                "vault.mount",
                self.config.db_mount.clone(),
            ),
        }
    }
}

/// A plan exists only for a target of the configuration, and then carries the
/// role that the caller may have there, the target's own cache limit and its
/// switch for revocation.
pub proof fn law_plan_follows_target(config: ConfigView, identity: IdentityView, i: int)
    requires
        keys_rise(config.targets),
        0 <= i < config.targets.len(),
    ensures
        plan_of(config, identity, config.targets[i].0) == match authorized_role(
            identity,
            config.targets[i].1,
        ) {
            Ok(role) => Ok::<PlanView, RefusalView>(
                PlanView {
                    role,
                    max_cache_ttl_ms: config.targets[i].1.max_cache_ttl_ms,
                    revoke_on_evict: config.targets[i].1.revoke_on_evict,
                },
            ),
            Err(refusal) => Err::<PlanView, RefusalView>(refusal),
        },
{
    lemma_entry_is_mapped(config.targets, i);
}

/// A name that no target of the configuration has gives no plan, and is named as
/// it was given.
pub proof fn law_unknown_target(config: ConfigView, identity: IdentityView, name: Seq<char>)
    requires
        forall|i: int| 0 <= i < config.targets.len() ==> (#[trigger] config.targets[i]).0 != name,
    ensures
        plan_of(config, identity, name) == Err::<PlanView, RefusalView>(
            RefusalView::UnknownTarget { target: name },
        ),
{
}

/// The cache time is one of the two limits and no more than either: the lease,
/// and the operator's limit in whole seconds or one second if that is none.
pub proof fn law_ttl_is_the_lesser_limit(lease: nat, ms: nat)
    ensures
        ({
            let ttl = capped_ttl(lease as int, ms as int);
            let limit = if ms < 1000 { 1int } else { ms as int / 1000 };
            &&& ttl <= lease
            &&& ttl <= limit
            &&& ttl == lease || ttl == limit
        }),
{
}

/// A credential is cached as long as its own target allows. It holds for every
/// target of a configuration, every caller with a plan for it, and whatever
/// Vault issued: the time is the lease or the target's own limit, whichever is
/// less; in milliseconds it does not exceed a limit of a second or more; a lease
/// within the limit is used to its end; and where the lease does not bind, two
/// targets with limits of different seconds give different times.
pub proof fn law_ttl_follows_target(
    config: ConfigView,
    identity: IdentityView,
    i: int,
    plan: PlanView,
    creds: DbCredsView,
    issued_at: Seq<char>,
)
    requires
        keys_rise(config.targets),
        0 <= i < config.targets.len(),
        plan_of(config, identity, config.targets[i].0) == Ok::<PlanView, RefusalView>(plan),
    ensures
        ({
            let ms = config.targets[i].1.max_cache_ttl_ms as int;
            let lease = creds.lease_duration as int;
            let ttl = issued_for(config, plan, creds, issued_at).ttl_seconds as int;
            let limit = if ms < 1000 { 1int } else { ms / 1000 };
            &&& ttl <= lease
            &&& ttl <= limit
            &&& ttl == lease || ttl == limit
            &&& ms >= 1000 ==> ttl * 1000 <= ms
            &&& lease * 1000 <= ms ==> ttl == lease
            &&& lease >= limit ==> ttl == limit
            &&& lease >= 1 ==> ttl >= 1
        }),
{
    law_plan_follows_target(config, identity, i);
}

/// A credential holds what Vault issued and says where it was had from: its
/// parts are the user name and the password, each under its own name, its lease
/// is Vault's, and its metadata are the plan's role and the mount path. The time
/// at which it was issued is the one given.
pub proof fn law_credential_of_plan(
    config: ConfigView,
    plan: PlanView,
    creds: DbCredsView,
    issued_at: Seq<char>,
    key: Seq<char>,
)
    ensures
        ({
            let credential = issued_for(config, plan, creds, issued_at);
            &&& credential.value is None
            &&& credential.parts.contains_key(key) <==> key == "username"@ || key == "password"@
            &&& credential.parts["username"@] == creds.username
            &&& credential.parts["password"@] == creds.password
            &&& credential.lease_id == Some(creds.lease_id)
            &&& credential.issued_at == issued_at
            &&& credential.metadata.contains_key(key) <==> key == "vault.role"@ || key
                == "vault.mount"@
            &&& credential.metadata["vault.role"@] == plan.role
            &&& credential.metadata["vault.mount"@] == config.db_mount
        }),
{
    reveal_strlit("username");
    reveal_strlit("password");
    reveal_strlit("vault.role");
    reveal_strlit("vault.mount");
    assert("username"@[0] != "password"@[0]);
    assert("vault.role"@.len() != "vault.mount"@.len());
}

/// A plan keeps what was decided: the contracts speak of all of it.
pub proof fn law_plan_is_viewed_whole(plan: IssuePlan)
    ensures
        plan@.role == plan.role@,
        plan@.max_cache_ttl_ms == plan.max_cache_ttl_ms,
        plan@.revoke_on_evict == plan.revoke_on_evict,
{
}

/// Every manifest of the plugin has the same id, name, class and protocol, asks
/// for nothing, and has the version and the module that it was made for.
pub proof fn law_manifest(
    manifest: PluginManifest,
    version: Seq<char>,
    module_path_prefix: Seq<char>,
)
    requires
        manifest.introduces(version, module_path_prefix),
    ensures
        manifest.id@ == "dev.mcpg.credential.vault-dynamic-db"@,
        manifest.version@ == version,
        manifest.name@ == "Vault Dynamic Database Credentials"@,
        manifest.plugin_class == PluginClass::CredentialIssuer,
        manifest.protocol_version@ == "1.0"@,
        manifest.module_path_prefix@ == module_path_prefix,
        manifest.license is None && manifest.backend_profile is None,
        manifest.required_capabilities@.len() == 0 && manifest.tags@.len() == 0,
        manifest.provides@.len() == 0 && manifest.provides_schemes@.len() == 0,
{
}

} // verus!
