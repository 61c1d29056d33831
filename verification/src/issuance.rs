//! The issuing of a credential, from the plan to the result.

use crate::authorization::{authorized_role, Refusal, RefusalView};
use crate::client::{
    client_of, creds_request, law_creds_request, law_revoke_request, revoke_request, ClientView,
};
use crate::config::ConfigView;
use crate::credential::{
    now_rfc3339, utc_timestamp, CredentialError, CredentialErrorView, IssuedCredential,
    IssuedCredentialView,
};
use crate::http::{Method, RequestView, VaultRequest};
use crate::identity_mapping::{valid_role_name, IdentityView, PluginIdentity};
use crate::issue_call::{
    issue_accepts, issue_expects, issue_step, new_issue_call, DbCredsView, IssueAction,
    IssueActionView, IssueCall, IssueCallView, IssueEvent, IssueEventView,
};
use crate::kept_leases::{
    law_kept_until_evicted, law_other_leases_do_not_matter, law_recorded, leases_after, recorded,
    times, used_lease, KeptLeases, LeaseUse,
};
use crate::plugin::{
    issued_for, law_cap_ttl, law_plan_follows_target, plan_of, IssuePlan, PlanView,
    VaultDynamicDbPlugin,
};
use crate::revoke_call::{
    new_revoke_call, revoke_step, RevokeActionView, RevokeCall, RevokeCallView, RevokeEventView,
    RevokePhase,
};
use crate::string_map::{entry_map, keys_rise};
use vstd::multiset::Multiset;
use vstd::prelude::*;

verus! {

/// The issuing of one credential that is under way: its plan, and the request
/// for the credentials of the plan's role.
#[derive(Debug)]
pub struct Issuance {
    pub plan: IssuePlan,
    pub call: IssueCall,
}

/// What the contracts speak of for an [`Issuance`].
pub struct IssuanceView {
    pub plan: PlanView,
    pub call: IssueCallView,
}

impl View for Issuance {
    type V = IssuanceView;

    open spec fn view(&self) -> IssuanceView {
        IssuanceView { plan: self.plan@, call: self.call@ }
    }
}

/// The issuing of a plan, before anything is done for it.
pub open spec fn new_issuance(plan: PlanView) -> IssuanceView {
    IssuanceView { plan, call: new_issue_call(plan.role) }
}

/// What the caller is to do next in issuing a credential.
#[derive(Debug)]
pub enum IssuanceAction {
    /// Send this.
    Send { request: VaultRequest },
    /// Drop the cached token, then get a token.
    Reauthenticate,
    /// Read the credentials out of the reply.
    ReadCreds,
    /// Read the reply's text.
    ReadText,
    /// It is over: here is the credential, or why there is none.
    Finish { result: Result<IssuedCredential, CredentialError> },
}

/// What the contracts speak of for an [`IssuanceAction`].
pub enum IssuanceActionView {
    Send { request: RequestView },
    Reauthenticate,
    ReadCreds,
    ReadText,
    Finish { result: Result<IssuedCredentialView, CredentialErrorView> },
}

impl View for IssuanceAction {
    type V = IssuanceActionView;

    open spec fn view(&self) -> IssuanceActionView {
        match *self {
            IssuanceAction::Send { request } => IssuanceActionView::Send { request: request@ },
            IssuanceAction::Reauthenticate => IssuanceActionView::Reauthenticate,
            IssuanceAction::ReadCreds => IssuanceActionView::ReadCreds,
            IssuanceAction::ReadText => IssuanceActionView::ReadText,
            IssuanceAction::Finish { result } => IssuanceActionView::Finish {
                result: match result {
                    Ok(credential) => Ok(credential@),
                    Err(error) => Err(error@),
                },
            },
        }
    }
}

/// What an action of the request for credentials means for the credential of a
/// plan: credentials from Vault are issued as a credential, at the time `now`.
pub open spec fn issuance_action(
    config: ConfigView,
    plan: PlanView,
    action: IssueActionView,
    now: Seq<char>,
) -> IssuanceActionView {
    match action {
        IssueActionView::Send { request } => IssuanceActionView::Send { request },
        IssueActionView::Reauthenticate => IssuanceActionView::Reauthenticate,
        IssueActionView::ReadCreds => IssuanceActionView::ReadCreds,
        IssueActionView::ReadText => IssuanceActionView::ReadText,
        IssueActionView::Finish { result } => IssuanceActionView::Finish {
            result: match result {
                Ok(creds) => Ok(issued_for(config, plan, creds, now)),
                Err(error) => Err(error),
            },
        },
    }
}

/// What an event in issuing a credential leads to: the state after it, and what
/// to do.
pub open spec fn issuance_step(
    config: ConfigView,
    client: ClientView,
    issuance: IssuanceView,
    event: IssueEventView,
    now: Seq<char>,
) -> (IssuanceView, IssuanceActionView) {
    let (call, action) = issue_step(client, issuance.call, event);
    (
        IssuanceView { plan: issuance.plan, call },
        issuance_action(config, issuance.plan, action, now),
    )
}

/// The record of kept leases after an event in issuing a credential: with the
/// credentials their lease goes on it, if the plan does not have it revoked.
pub open spec fn kept_after(
    kept: Multiset<Seq<char>>,
    plan: PlanView,
    event: IssueEventView,
) -> Multiset<Seq<char>> {
    match event {
        IssueEventView::CredsRead { creds } => recorded(
            kept,
            creds.lease_id,
            plan.revoke_on_evict,
        ),
        _ => kept,
    }
}

/// What is done when the cache drops the credential of a lease: a lease that is
/// kept only leaves the record, once, and every other one is revoked.
pub open spec fn eviction(kept: Multiset<Seq<char>>, lease_id: Seq<char>) -> (
    Multiset<Seq<char>>,
    Option<RevokeCallView>,
) {
    if kept.contains(lease_id) {
        (kept.remove(lease_id), None)
    } else {
        (kept, Some(new_revoke_call(lease_id)))
    }
}

/// What the caller is told to do, event by event.
pub open spec fn issuance_actions(
    config: ConfigView,
    client: ClientView,
    issuance: IssuanceView,
    events: Seq<IssueEventView>,
    now: Seq<char>,
) -> Seq<IssuanceActionView>
    decreases events.len(),
{
    if events.len() == 0 {
        Seq::empty()
    } else {
        let (next, action) = issuance_step(config, client, issuance, events[0], now);
        seq![action] + issuance_actions(config, client, next, events.drop_first(), now)
    }
}

impl VaultDynamicDbPlugin {
    /// Begins to issue a credential, if the caller may have one. A token is
    /// needed first.
    pub fn issue(&self, identity: &PluginIdentity, target: &str) -> (res: Result<
        Issuance,
        Refusal,
    >)
        ensures
            match plan_of(self.config@, identity@, target@) {
                Ok(plan) => res is Ok && res->Ok_0@ == new_issuance(plan),
                Err(refusal) => res is Err && res->Err_0@ == refusal,
            },
    {
        match self.plan_issue(identity, target) {
            Ok(plan) => {
                let call = self.client.issue_db_creds(plan.role.as_str());
                Ok(Issuance { plan, call })
            },
            Err(refusal) => Err(refusal),
        }
    }

    /// Begins to revoke the lease of a credential that the cache drops, unless
    /// the lease is to be left for Vault to expire. A token is needed first.
    pub fn revoke(&self, kept: &mut KeptLeases, lease_id: &str) -> (res: Option<RevokeCall>)
        ensures
            final(kept)@ == eviction(old(kept)@, lease_id@).0,
            match res {
                Some(call) => eviction(old(kept)@, lease_id@).1 == Some(call@),
                None => eviction(old(kept)@, lease_id@).1 is None,
            },
    {
        if kept.contains(lease_id) {
            kept.remove(lease_id);
            None
        } else {
            Some(self.client.revoke_lease(lease_id))
        }
    }
}

impl Issuance {
    /// Takes what has come of the last action and says what to do next. A
    /// credential that this step ends in is issued at `now`, and its lease is
    /// recorded if it is to be kept.
    pub fn step_at(
        &mut self,
        plugin: &VaultDynamicDbPlugin,
        kept: &mut KeptLeases,
        event: IssueEvent,
        now: String,
    ) -> (action: IssuanceAction)
        requires
            issue_expects(old(self).call.phase, event@),
        ensures
            (final(self)@, action@) == issuance_step(
                plugin.config@,
                plugin.client@,
                old(self)@,
                event@,
                now@,
            ),
            final(kept)@ == kept_after(old(kept)@, old(self)@.plan, event@),
    {
        if let IssueEvent::CredsRead { creds } = &event {
            kept.record(creds.lease_id.as_str(), self.plan.revoke_on_evict);
        }
        match self.call.step(&plugin.client, event) {
            IssueAction::Send { request } => IssuanceAction::Send { request },
            IssueAction::Reauthenticate => IssuanceAction::Reauthenticate,
            IssueAction::ReadCreds => IssuanceAction::ReadCreds,
            IssueAction::ReadText => IssuanceAction::ReadText,
            IssueAction::Finish { result } => {
                let result = match result {
                    Ok(creds) => Ok(plugin.credential_issued_at(&self.plan, creds, now)),
                    Err(error) => Err(error),
                };
                IssuanceAction::Finish { result }
            },
        }
    }

    /// Takes what has come of the last action and says what to do next. A
    /// credential that this step ends in is issued at the time now, and its lease
    /// is recorded if it is to be kept. The clock is read for nothing else. Which
    /// time that is, is left unsaid.
    pub fn step(
        &mut self,
        plugin: &VaultDynamicDbPlugin,
        kept: &mut KeptLeases,
        event: IssueEvent,
    ) -> (action: IssuanceAction)
        requires
            issue_expects(old(self).call.phase, event@),
        ensures
            exists|now: Seq<char>|
                (event@ is CredsRead ==> utc_timestamp(now)) && (final(self)@, action@)
                    == #[trigger] issuance_step(
                    plugin.config@,
                    plugin.client@,
                    old(self)@,
                    event@,
                    now,
                ),
            final(kept)@ == kept_after(old(kept)@, old(self)@.plan, event@),
    {
        let now = match &event {
            IssueEvent::CredsRead { .. } => now_rfc3339(),
            _ => String::new(),
        };
        self.step_at(plugin, kept, event, now)
    }
}

proof fn lemma_issuance_run(
    config: ConfigView,
    client: ClientView,
    issuance: IssuanceView,
    events: Seq<IssueEventView>,
    now: Seq<char>,
    i: int,
)
    requires
        issuance.call.role == issuance.plan.role,
        issue_accepts(client, issuance.call, events),
        0 <= i < events.len(),
    ensures
        ({
            let actions = issuance_actions(config, client, issuance, events, now);
            &&& actions.len() == events.len()
            &&& actions[i] matches IssuanceActionView::Send { request } ==> events[i]
                is TokenObtained && request == creds_request(
                client,
                issuance.plan.role,
                events[i]->token,
            )
            &&& (actions[i] matches IssuanceActionView::Finish { result: Ok(credential) }
                ==> events[i] is CredsRead && credential == issued_for(
                config,
                issuance.plan,
                events[i]->creds,
                now,
            ))
        }),
    decreases events.len(),
{
    let (next, action) = issuance_step(config, client, issuance, events[0], now);
    let rest = events.drop_first();
    let tail = issuance_actions(config, client, next, rest, now);
    let actions = issuance_actions(config, client, issuance, events, now);
    assert(actions == seq![action] + tail);
    assert(actions.drop_first() =~= tail);
    assert(next.plan == issuance.plan);
    assert(next.call.role == issuance.call.role);
    assert(tail.len() == rest.len()) by {
        if rest.len() > 0 {
            lemma_issuance_run(config, client, next, rest, now, 0);
        }
    }
    if i > 0 {
        assert(rest[i - 1] == events[i]);
        assert(actions[i] == tail[i - 1]);
        lemma_issuance_run(config, client, next, rest, now, i - 1);
    } else {
        assert(actions[0] == action);
    }
}

/// From the caller to the credential: whatever events come while a planned
/// credential is issued, every request goes to the path of the one role that
/// the caller may have, which is a role name, and a credential that comes of it
/// is made of the credentials that Vault's reply held, under the plan.
pub proof fn law_issue_from_plan_to_credential(
    config: ConfigView,
    identity: IdentityView,
    name: Seq<char>,
    events: Seq<IssueEventView>,
    now: Seq<char>,
    i: int,
)
    requires
        plan_of(config, identity, name) is Ok,
        issue_accepts(
            client_of(config),
            new_issuance(plan_of(config, identity, name)->Ok_0).call,
            events,
        ),
        0 <= i < events.len(),
    ensures
        ({
            let plan = plan_of(config, identity, name)->Ok_0;
            let client = client_of(config);
            let actions = issuance_actions(config, client, new_issuance(plan), events, now);
            &&& authorized_role(identity, entry_map(config.targets)[name]) == Ok::<
                Seq<char>,
                RefusalView,
            >(plan.role)
            &&& valid_role_name(plan.role)
            &&& actions.len() == events.len()
            &&& actions[i] matches IssuanceActionView::Send { request } ==> events[i]
                is TokenObtained && request == creds_request(client, plan.role, events[i]->token)
            &&& (actions[i] matches IssuanceActionView::Finish { result: Ok(credential) }
                ==> events[i] is CredsRead && credential == issued_for(
                config,
                plan,
                events[i]->creds,
                now,
            ))
        }),
{
    let plan = plan_of(config, identity, name)->Ok_0;
    lemma_issuance_run(config, client_of(config), new_issuance(plan), events, now, i);
}

/// A credential that is issued holds the user name, the password and the lease
/// that Vault gave, names the role and the mount that it was had from, is never
/// cached past its lease, and is never an empty promise: it comes only from
/// credentials that were read from Vault's reply.
pub proof fn law_issued_credential(
    config: ConfigView,
    client: ClientView,
    issuance: IssuanceView,
    event: IssueEventView,
    now: Seq<char>,
)
    requires
        issue_expects(issuance.call.phase, event),
    ensures
        ({
            let action = issuance_step(config, client, issuance, event, now).1;
            &&& (action matches IssuanceActionView::Finish { result } && result is Ok)
                <==> event is CredsRead
            &&& (action matches IssuanceActionView::Finish { result: Ok(credential) } ==> {
                let creds = event->creds;
                &&& credential.value is None
                &&& credential.parts["username"@] == creds.username
                &&& credential.parts["password"@] == creds.password
                &&& credential.parts.dom() == set!["username"@, "password"@]
                &&& credential.lease_id == Some(creds.lease_id)
                &&& credential.metadata["vault.role"@] == issuance.plan.role
                &&& credential.metadata["vault.mount"@] == config.db_mount
                &&& credential.metadata.dom() == set!["vault.role"@, "vault.mount"@]
                &&& credential.ttl_seconds <= creds.lease_duration
                &&& credential.issued_at == now
            })
        }),
{
    reveal_strlit("username");
    reveal_strlit("password");
    reveal_strlit("vault.role");
    reveal_strlit("vault.mount");
    assert("username"@[0] != "password"@[0]);
    assert("vault.role"@.len() != "vault.mount"@.len());
    if event is CredsRead {
        let creds = event->creds;
        law_cap_ttl(
            creds.lease_duration as nat,
            creds.lease_duration as nat,
            issuance.plan.max_cache_ttl_ms as nat,
            issuance.plan.max_cache_ttl_ms as nat,
        );
        let credential = issued_for(config, issuance.plan, creds, now);
        assert(credential.parts.dom() =~= set!["username"@, "password"@]);
        assert(credential.metadata.dom() =~= set!["vault.role"@, "vault.mount"@]);
    }
}

/// From the issue of a credential to its eviction. If the target's switch is
/// off, nothing is sent for the credential's lease, as long as the lease is not
/// issued with the switch on and is not evicted more often than it is issued. If
/// the switch is on and only other leases are used between, the request that
/// revokes this lease is sent as soon as there is a token.
pub proof fn law_eviction_follows_switch(
    config: ConfigView,
    identity: IdentityView,
    name: Seq<char>,
    call: IssueCallView,
    creds: DbCredsView,
    now: Seq<char>,
    kept: Multiset<Seq<char>>,
    uses: Seq<LeaseUse>,
    token: Seq<char>,
)
    requires
        plan_of(config, identity, name) is Ok,
        issue_expects(call.phase, IssueEventView::CredsRead { creds }),
        ({
            let lease_id = creds.lease_id;
            if entry_map(config.targets)[name].revoke_on_evict {
                forall|i: int| 0 <= i < uses.len() ==> used_lease(#[trigger] uses[i]) != lease_id
            } else {
                &&& !uses.contains(LeaseUse::Issued { lease_id, revoke_on_evict: true })
                &&& times(uses, LeaseUse::Evicted { lease_id }) <= times(
                    uses,
                    LeaseUse::Issued { lease_id, revoke_on_evict: false },
                )
            }
        }),
    ensures
        ({
            let plan = plan_of(config, identity, name)->Ok_0;
            let client = client_of(config);
            let event = IssueEventView::CredsRead { creds };
            let action = issuance_step(
                config,
                client,
                IssuanceView { plan, call },
                event,
                now,
            ).1;
            let later = leases_after(kept_after(kept, plan, event), uses);
            let revocation = eviction(later, creds.lease_id).1;
            &&& (action matches IssuanceActionView::Finish { result: Ok(credential) }
                && credential.lease_id == Some(creds.lease_id))
            &&& if entry_map(config.targets)[name].revoke_on_evict {
                &&& revocation == Some(new_revoke_call(creds.lease_id))
                &&& revoke_step(
                    client,
                    revocation->0,
                    RevokeEventView::TokenObtained { token },
                ).1 == (RevokeActionView::Send {
                    request: revoke_request(client, creds.lease_id, token),
                })
            } else {
                revocation is None
            }
        }),
{
    broadcast use vstd::multiset::group_multiset_properties;

    let plan = plan_of(config, identity, name)->Ok_0;
    let issued = kept_after(kept, plan, IssueEventView::CredsRead { creds });
    if plan.revoke_on_evict {
        law_other_leases_do_not_matter(issued, uses, creds.lease_id);
    } else {
        law_kept_until_evicted(issued, uses, creds.lease_id);
    }
}

/// What the issuing of a credential comes to, event by event, for its plan: the
/// request goes out as the plan's call has it, every error that ends the call is
/// the result as it is, and only credentials that were read are turned into a
/// credential. The plan never changes.
pub proof fn law_issuance_outcomes(
    config: ConfigView,
    client: ClientView,
    issuance: IssuanceView,
    event: IssueEventView,
    now: Seq<char>,
)
    ensures
        ({
            let (next, action) = issuance_step(config, client, issuance, event, now);
            let (call, inner) = issue_step(client, issuance.call, event);
            &&& next.plan == issuance.plan
            &&& next.call == call
            &&& inner matches IssueActionView::Send { request } ==> action == (
            IssuanceActionView::Send { request })
            &&& inner is Reauthenticate <==> action is Reauthenticate
            &&& inner is ReadCreds <==> action is ReadCreds
            &&& inner is ReadText <==> action is ReadText
            &&& inner is Finish <==> action is Finish
            &&& inner matches IssueActionView::Finish { result: Err(error) } ==> action == (
            IssuanceActionView::Finish { result: Err(error) })
            &&& inner matches IssueActionView::Finish { result: Ok(creds) } ==> (action
                matches IssuanceActionView::Finish { result: Ok(credential) } && credential
                == issued_for(config, issuance.plan, creds, now))
        }),
        event matches IssueEventView::TokenRefused { error } ==> issuance_step(
            config,
            client,
            issuance,
            event,
            now,
        ).1 == (IssuanceActionView::Finish { result: Err(error) }),
{
}

/// The first request of a plan: with a token it goes to the one role that the
/// caller may have at the target, under the configured mount path, and carries
/// the token.
pub proof fn law_first_request(
    config: ConfigView,
    identity: IdentityView,
    i: int,
    token: Seq<char>,
    now: Seq<char>,
)
    requires
        keys_rise(config.targets),
        0 <= i < config.targets.len(),
        authorized_role(identity, config.targets[i].1) is Ok,
    ensures
        ({
            let role = authorized_role(identity, config.targets[i].1)->Ok_0;
            let plan = plan_of(config, identity, config.targets[i].0);
            let client = client_of(config);
            let action = issuance_step(
                config,
                client,
                new_issuance(plan->Ok_0),
                IssueEventView::TokenObtained { token },
                now,
            ).1;
            &&& plan is Ok
            &&& (action matches IssuanceActionView::Send { request } && request.url
                == client.base_url + "/v1/"@ + config.db_mount + "/creds/"@ + role
                && request.method == Method::Post && request.body is None
                && request.headers.contains(("X-Vault-Token"@, token)))
        }),
{
    law_plan_follows_target(config, identity, i);
    let role = authorized_role(identity, config.targets[i].1)->Ok_0;
    law_creds_request(client_of(config), role, token, role, token);
}

/// What an eviction does: a lease that is kept is kept once less and nothing is
/// begun; for any other lease the record stays and a revocation of exactly that
/// lease begins, from its beginning. No other lease is touched.
pub proof fn law_eviction(kept: Multiset<Seq<char>>, lease_id: Seq<char>, other: Seq<char>)
    ensures
        ({
            let (after, begun) = eviction(kept, lease_id);
            &&& kept.count(lease_id) > 0 ==> begun is None && after.count(lease_id) + 1
                == kept.count(lease_id)
            &&& kept.count(lease_id) == 0 ==> after.count(lease_id) == 0 && (begun matches Some(
                call,
            ) && call.lease_id == lease_id && !call.retried && call.phase
                == RevokePhase::NeedToken)
            &&& other != lease_id ==> after.count(other) == kept.count(other)
        }),
{
    broadcast use vstd::multiset::group_multiset_properties;

}

/// From the issue of a credential to what Vault is asked when the cache drops
/// it: with the target's switch on, the one PUT to the path for revocations with
/// the whole lease id that Vault gave, and nothing else, in its body.
pub proof fn law_evicted_lease_is_named_whole(
    config: ConfigView,
    plan: PlanView,
    creds: DbCredsView,
    kept: Multiset<Seq<char>>,
    token: Seq<char>,
)
    requires
        plan.revoke_on_evict,
    ensures
        ({
            let client = client_of(config);
            let issued = kept_after(kept, plan, IssueEventView::CredsRead { creds });
            let begun = eviction(issued, creds.lease_id).1;
            let action = revoke_step(
                client,
                begun->0,
                RevokeEventView::TokenObtained { token },
            ).1;
            &&& begun is Some
            &&& (action matches RevokeActionView::Send { request } && request.method == Method::Put
                && request.url == client.base_url + "/v1/sys/leases/revoke"@ && request.body
                == Some(seq![("lease_id"@, creds.lease_id)]))
        }),
{
    broadcast use vstd::multiset::group_multiset_properties;

    law_recorded(kept, creds.lease_id, creds.lease_id, true);
    let client = client_of(config);
    law_revoke_request(client, creds.lease_id, token, creds.lease_id, token);
    let request = revoke_request(client, creds.lease_id, token);
    assert(request.body->0 =~= seq![("lease_id"@, creds.lease_id)]);
}

/// The contracts speak of an action by its kind and all that it holds.
pub proof fn law_issuance_action_is_viewed_whole(action: IssuanceAction)
    ensures
        action is Reauthenticate <==> action@ is Reauthenticate,
        action is ReadCreds <==> action@ is ReadCreds,
        action is ReadText <==> action@ is ReadText,
        action matches IssuanceAction::Send { request } ==> action@ == (IssuanceActionView::Send {
            request: request@,
        }),
        action matches IssuanceAction::Finish { result: Ok(value) } ==> action@ == (
        IssuanceActionView::Finish { result: Ok(value@) }),
        action matches IssuanceAction::Finish { result: Err(error) } ==> action@ == (
        IssuanceActionView::Finish { result: Err(error@) }),
{
}

} // verus!
