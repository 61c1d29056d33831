//! Which callers get which role.

use crate::client::{creds_url, ClientView};
use crate::config::{IdentityMapping, TargetConfig, TargetView};
use crate::credential::{CredentialError, CredentialErrorView};
use crate::identity_mapping::{
    is_valid_role_name, law_only_marked_roles_are_derived, resolution_of, resolve_role, role_char,
    valid_role_name, IdentityView, PluginIdentity, Resolution, ResolutionView,
};
use crate::text::same_text;
use vstd::prelude::*;

verus! {

/// The trust level of an identity that was authenticated. Any other may have
/// been asserted by the caller, in a header for one.
pub const VERIFIED: &'static str = "verified";

/// Why a caller gets no credential before Vault is even asked.
#[derive(Debug)]
pub enum Refusal {
    /// There is no target of this name.
    UnknownTarget { target: String },
    /// The role would come from an identity that is not verified.
    UntrustedIdentity { trust_level: String },
    /// The role cannot stand in a Vault API path.
    InvalidRoleName,
    /// The target does not allow the role.
    RoleNotAllowed,
    /// The identity gives no role, and there is none to fall back to.
    EmptyDerived { reason: String },
    /// The template refers to a field that the identity does not have.
    SubstitutionFailed { field: String },
}

/// What the contracts speak of for a [`Refusal`].
pub enum RefusalView {
    UnknownTarget { target: Seq<char> },
    UntrustedIdentity { trust_level: Seq<char> },
    InvalidRoleName,
    RoleNotAllowed,
    EmptyDerived { reason: Seq<char> },
    SubstitutionFailed { field: Seq<char> },
}

impl View for Refusal {
    type V = RefusalView;

    open spec fn view(&self) -> RefusalView {
        match *self {
            Refusal::UnknownTarget { target } => RefusalView::UnknownTarget { target: target@ },
            Refusal::UntrustedIdentity { trust_level } => RefusalView::UntrustedIdentity {
                trust_level: trust_level@,
            },
            Refusal::InvalidRoleName => RefusalView::InvalidRoleName,
            Refusal::RoleNotAllowed => RefusalView::RoleNotAllowed,
            Refusal::EmptyDerived { reason } => RefusalView::EmptyDerived { reason: reason@ },
            Refusal::SubstitutionFailed { field } => RefusalView::SubstitutionFailed {
                field: field@,
            },
        }
    }
}

/// The error that the host gets for a refusal. An unknown target is a fault of
/// the configuration; everything else means that the caller is not authorized.
pub open spec fn refusal_error(refusal: RefusalView) -> CredentialErrorView {
    match refusal {
        RefusalView::UnknownTarget { target } => CredentialErrorView::Misconfigured {
            reason: "unknown target: "@ + target,
        },
        RefusalView::UntrustedIdentity { trust_level } => CredentialErrorView::NotAuthorized {
            reason: "identity-derived Vault role requires Verified trust; caller trust is `"@
                + trust_level + "`"@,
        },
        RefusalView::InvalidRoleName => CredentialErrorView::NotAuthorized {
            reason: "resolved Vault role name is not path-safe (allowed: A-Z a-z 0-9 _ -)"@,
        },
        RefusalView::RoleNotAllowed => CredentialErrorView::NotAuthorized {
            reason: "resolved Vault role is not in this target's allowed_roles"@,
        },
        RefusalView::EmptyDerived { reason } => CredentialErrorView::NotAuthorized { reason },
        RefusalView::SubstitutionFailed { field } => CredentialErrorView::NotAuthorized {
            reason: "identity template substitution failed: field `"@ + field
                + "` is None or out-of-bounds"@,
        },
    }
}

impl Refusal {
    /// The error for the host.
    pub fn into_error(self) -> (error: CredentialError)
        ensures
            error@ == refusal_error(self@),
    {
        match self {
            Refusal::UnknownTarget { target } => {
                let mut reason = "unknown target: ".to_owned();
                reason.append(target.as_str());
                CredentialError::Misconfigured { reason }
            },
            Refusal::UntrustedIdentity { trust_level } => {
                let words = "identity-derived Vault role requires Verified trust; caller trust is `";
                let mut reason = words.to_owned();
                reason.append(trust_level.as_str());
                reason.append("`");
                CredentialError::NotAuthorized { reason }
            },
            Refusal::InvalidRoleName => {
                let words = "resolved Vault role name is not path-safe (allowed: A-Z a-z 0-9 _ -)";
                CredentialError::NotAuthorized { reason: words.to_owned() }
            },
            Refusal::RoleNotAllowed => CredentialError::NotAuthorized {
                reason: "resolved Vault role is not in this target's allowed_roles".to_owned(),
            },
            Refusal::EmptyDerived { reason } => CredentialError::NotAuthorized { reason },
            Refusal::SubstitutionFailed { field } => {
                let mut reason = "identity template substitution failed: field `".to_owned();
                reason.append(field.as_str());
                reason.append("` is None or out-of-bounds");
                CredentialError::NotAuthorized { reason }
            },
        }
    }
}

/// Whether a target may issue a role. A static mapping may issue the operator's
/// role whatever the list says.
pub open spec fn role_allowed(target: TargetView, role: Seq<char>) -> bool {
    match target.allowed_roles {
        Some(roles) => target.identity_mapping == IdentityMapping::Static || roles.contains(role),
        None => true,
    }
}

/// The role that a caller gets from a target, or why they get none. A role that
/// the caller's identity selects takes a verified identity; every role must be
/// a role name, and one that the target allows.
pub open spec fn authorized_role(identity: IdentityView, target: TargetView) -> Result<
    Seq<char>,
    RefusalView,
> {
    match resolution_of(identity, target) {
        ResolutionView::Role { role, identity_derived } => if identity_derived
            && identity.trust_level != VERIFIED@ {
            Err(RefusalView::UntrustedIdentity { trust_level: identity.trust_level })
        } else if !valid_role_name(role) {
            Err(RefusalView::InvalidRoleName)
        } else if !role_allowed(target, role) {
            Err(RefusalView::RoleNotAllowed)
        } else {
            Ok(role)
        },
        ResolutionView::EmptyDerived { reason } => Err(RefusalView::EmptyDerived { reason }),
        ResolutionView::SubstitutionFailed { field } => Err(
            RefusalView::SubstitutionFailed { field },
        ),
    }
}

/// Whether `list` holds `text`.
fn holds(list: &Vec<String>, text: &str) -> (res: bool)
    ensures
        res == list.deep_view().contains(text@),
{
    let mut i: usize = 0;
    while i < list.len()
        invariant
            i <= list@.len(),
            forall|j: int| 0 <= j < i ==> #[trigger] list.deep_view()[j] != text@,
        decreases list@.len() - i,
    {
        assert(list.deep_view()[i as int] == list@[i as int]@);
        if same_text(list[i].as_str(), text) {
            return true;
        }
        i = i + 1;
    }
    false
}

/// Selects the role of `identity` for `target`, and checks that the caller may
/// have it.
pub fn authorize_role(identity: &PluginIdentity, target: &TargetConfig) -> (res: Result<
    String,
    Refusal,
>)
    ensures
        match res {
            Ok(role) => authorized_role(identity@, target@) == Ok::<Seq<char>, RefusalView>(role@),
            Err(refusal) => authorized_role(identity@, target@) == Err::<Seq<char>, RefusalView>(
                refusal@,
            ),
        },
{
    match resolve_role(identity, target) {
        Resolution::Role { role, identity_derived } => {
            if identity_derived && !same_text(identity.trust_level.as_str(), VERIFIED) {
                return Err(
                    Refusal::UntrustedIdentity { trust_level: identity.trust_level.clone() },
                );
            }
            if !is_valid_role_name(role.as_str()) {
                return Err(Refusal::InvalidRoleName);
            }
            if let Some(allowed) = &target.allowed_roles {
                let fixed = match target.identity_mapping {
                    IdentityMapping::Static => true,
                    _ => false,
                };
                if !fixed && !holds(allowed, role.as_str()) {
                    return Err(Refusal::RoleNotAllowed);
                }
            }
            Ok(role)
        },
        Resolution::EmptyDerived { reason } => Err(Refusal::EmptyDerived { reason }),
        Resolution::SubstitutionFailed { field } => Err(Refusal::SubstitutionFailed { field }),
    }
}

/// A caller whose identity is not verified cannot select a role: what they get,
/// if anything, is the operator's own.
pub proof fn law_unverified_caller_gets_operator_role(identity: IdentityView, target: TargetView)
    requires
        identity.trust_level != VERIFIED@,
    ensures
        match authorized_role(identity, target) {
            Ok(role) => role == target.vault_role,
            Err(_) => true,
        },
{
    law_only_marked_roles_are_derived(identity, target);
}

/// Where the identity selects the role and is not verified, the caller is
/// refused for want of trust, whatever the role.
pub proof fn law_untrusted_selection_is_refused(identity: IdentityView, target: TargetView)
    requires
        identity.trust_level != VERIFIED@,
        resolution_of(identity, target) matches ResolutionView::Role { identity_derived, .. }
            && identity_derived,
    ensures
        authorized_role(identity, target) == Err::<Seq<char>, RefusalView>(
            RefusalView::UntrustedIdentity { trust_level: identity.trust_level },
        ),
        refusal_error(
            RefusalView::UntrustedIdentity { trust_level: identity.trust_level },
        ) is NotAuthorized,
{
}

/// Every role that a caller gets is a role name, so that the path of the request
/// for its credentials ends in the role as one segment: after `/creds/` comes no
/// separator, dot, escape or query. Two roles never share a path.
pub proof fn law_authorized_role_stays_in_path(
    client: ClientView,
    identity: IdentityView,
    target: TargetView,
    other: Seq<char>,
)
    requires
        authorized_role(identity, target) is Ok,
    ensures
        ({
            let role = authorized_role(identity, target)->Ok_0;
            let path = creds_url(client, role);
            let stem = creds_url(client, Seq::empty());
            &&& valid_role_name(role)
            &&& path == stem + role
            &&& forall|i: int|
                stem.len() <= i < path.len() ==> {
                    let c = #[trigger] path[i];
                    role_char(c) && c != '/' && c != '.' && c != '%' && c != '?' && c != '#'
                }
            &&& creds_url(client, other) == path ==> other == role
        }),
{
    let role = authorized_role(identity, target)->Ok_0;
    let path = creds_url(client, role);
    let stem = creds_url(client, Seq::empty());
    assert(path =~= stem + role);
    assert forall|i: int| stem.len() <= i < path.len() implies role_char(#[trigger] path[i]) by {
        assert(path[i] == role[i - stem.len()]);
    }
    if creds_url(client, other) == path {
        assert(creds_url(client, other) =~= stem + other);
        assert(other =~= path.skip(stem.len() as int));
        assert(role =~= path.skip(stem.len() as int));
    }
}

/// Where a target limits its roles, every role that it gives out is on the
/// list, unless the mapping is static.
pub proof fn law_allowed_roles_bound_what_is_issued(identity: IdentityView, target: TargetView)
    requires
        target.allowed_roles is Some,
        target.identity_mapping != IdentityMapping::Static,
        authorized_role(identity, target) is Ok,
    ensures
        target.allowed_roles->0.contains(authorized_role(identity, target)->Ok_0),
{
}

/// With a static mapping neither the caller nor the list of allowed roles
/// matters: every caller gets the operator's role if it is a role name, and
/// none does otherwise.
pub proof fn law_static_mapping_ignores_caller(identity: IdentityView, target: TargetView)
    requires
        target.identity_mapping == IdentityMapping::Static,
    ensures
        authorized_role(identity, target) == if valid_role_name(target.vault_role) {
            Ok::<Seq<char>, RefusalView>(target.vault_role)
        } else {
            Err::<Seq<char>, RefusalView>(RefusalView::InvalidRoleName)
        },
{
}

/// A caller who cannot have a credential is told that they are not authorized;
/// only a target that does not exist counts as a fault of the configuration.
pub proof fn law_refusals_are_authorization_failures(refusal: RefusalView)
    ensures
        refusal_error(refusal) is Misconfigured <==> refusal is UnknownTarget,
        refusal_error(refusal) is NotAuthorized <==> !(refusal is UnknownTarget),
{
}

/// Who gets which role. A caller gets the role that the target's mapping selects
/// if and only if it does not come from an identity that is not verified, it is
/// a role name, and the target has no list of roles, has the role at any place
/// of its list, or has a static mapping. Otherwise the first of these that fails
/// is the reason.
pub proof fn law_who_is_authorized(identity: IdentityView, target: TargetView)
    ensures
        ({
            let res = authorized_role(identity, target);
            match resolution_of(identity, target) {
                ResolutionView::Role { role, identity_derived } => {
                    let trusted = !identity_derived || identity.trust_level == "verified"@;
                    let listed = target.identity_mapping == IdentityMapping::Static
                        || target.allowed_roles is None || exists|i: int|
                        0 <= i < target.allowed_roles->0.len() && (
                        #[trigger] target.allowed_roles->0[i]) == role;
                    let ok = trusted && valid_role_name(role) && listed;
                    &&& res == Ok::<Seq<char>, RefusalView>(role) <==> ok
                    &&& res is Ok <==> ok
                    &&& !trusted ==> res == Err::<Seq<char>, RefusalView>(
                        RefusalView::UntrustedIdentity { trust_level: identity.trust_level },
                    )
                    &&& trusted && !valid_role_name(role) ==> res == Err::<Seq<char>, RefusalView>(
                        RefusalView::InvalidRoleName,
                    )
                    &&& trusted && valid_role_name(role) && !listed ==> res == Err::<
                        Seq<char>,
                        RefusalView,
                    >(RefusalView::RoleNotAllowed)
                },
                ResolutionView::EmptyDerived { reason } => res == Err::<Seq<char>, RefusalView>(
                    RefusalView::EmptyDerived { reason },
                ),
                ResolutionView::SubstitutionFailed { field } => res == Err::<
                    Seq<char>,
                    RefusalView,
                >(RefusalView::SubstitutionFailed { field }),
            }
        }),
{
}

/// Only what a list of allowed roles holds matters, neither its order nor how
/// often a role is on it; and whoever gets a role under a list gets it under
/// every longer list, and without one.
pub proof fn law_allowed_roles_as_a_set(
    identity: IdentityView,
    target: TargetView,
    roles: Seq<Seq<char>>,
    more: Seq<Seq<char>>,
)
    requires
        forall|role: Seq<char>| #[trigger] roles.contains(role) ==> more.contains(role),
    ensures
        ({
            let under = TargetView { allowed_roles: Some(roles), ..target };
            let over = TargetView { allowed_roles: Some(more), ..target };
            let free = TargetView { allowed_roles: None, ..target };
            &&& authorized_role(identity, under) is Ok ==> authorized_role(identity, over)
                == authorized_role(identity, under)
            &&& authorized_role(identity, under) is Ok ==> authorized_role(identity, free)
                == authorized_role(identity, under)
            &&& (forall|role: Seq<char>| #[trigger] more.contains(role) ==> roles.contains(role))
                ==> authorized_role(identity, under) == authorized_role(identity, over)
            &&& authorized_role(identity, free) matches Ok(role) ==> (roles.contains(role)
                ==> authorized_role(identity, under) == Ok::<Seq<char>, RefusalView>(role))
        }),
{
    let under = TargetView { allowed_roles: Some(roles), ..target };
    let over = TargetView { allowed_roles: Some(more), ..target };
    let free = TargetView { allowed_roles: None, ..target };
    assert(resolution_of(identity, under) == resolution_of(identity, target));
    assert(resolution_of(identity, over) == resolution_of(identity, target));
    assert(resolution_of(identity, free) == resolution_of(identity, target));
}

/// What the host is told names the target, the trust level, or the field that a
/// refusal is about, whole; and a reason is passed on as it is.
pub proof fn law_refusal_words(words: Seq<char>)
    ensures
        refusal_error(RefusalView::UnknownTarget { target: words }) == (
        CredentialErrorView::Misconfigured { reason: "unknown target: "@ + words }),
        refusal_error(RefusalView::UntrustedIdentity { trust_level: words }) == (
        CredentialErrorView::NotAuthorized {
            reason: "identity-derived Vault role requires Verified trust; caller trust is `"@
                + words + "`"@,
        }),
        refusal_error(RefusalView::InvalidRoleName) == (CredentialErrorView::NotAuthorized {
            reason: "resolved Vault role name is not path-safe (allowed: A-Z a-z 0-9 _ -)"@,
        }),
        refusal_error(RefusalView::RoleNotAllowed) == (CredentialErrorView::NotAuthorized {
            reason: "resolved Vault role is not in this target's allowed_roles"@,
        }),
        refusal_error(RefusalView::EmptyDerived { reason: words }) == (
        CredentialErrorView::NotAuthorized { reason: words }),
        refusal_error(RefusalView::SubstitutionFailed { field: words }) == (
        CredentialErrorView::NotAuthorized {
            reason: "identity template substitution failed: field `"@ + words
                + "` is None or out-of-bounds"@,
        }),
{
}

/// The contracts speak of a refusal by its kind and all that it holds.
pub proof fn law_refusal_is_viewed_whole(refusal: Refusal)
    ensures
        refusal matches Refusal::UnknownTarget { target } ==> refusal@ == (
        RefusalView::UnknownTarget { target: target@ }),
        refusal matches Refusal::UntrustedIdentity { trust_level } ==> refusal@ == (
        RefusalView::UntrustedIdentity { trust_level: trust_level@ }),
        refusal is InvalidRoleName <==> refusal@ is InvalidRoleName,
        refusal is RoleNotAllowed <==> refusal@ is RoleNotAllowed,
        refusal matches Refusal::EmptyDerived { reason } ==> refusal@ == (
        RefusalView::EmptyDerived { reason: reason@ }),
        refusal matches Refusal::SubstitutionFailed { field } ==> refusal@ == (
        RefusalView::SubstitutionFailed { field: field@ }),
{
}

} // verus!
