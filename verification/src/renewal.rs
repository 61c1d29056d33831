//! What is promised of a token that Vault no longer takes: an AppRole's is
//! renewed without the caller's doing.

use crate::client::{
    client_of, creds_request, login_request, revoke_request, token_dropped, token_step,
    AuthStateView, ClientView, TokenStepView,
};
use crate::config::ConfigView;
use crate::credential::CredentialErrorView;
use crate::http::{status_line, success, UNAUTHORIZED};
use crate::issue_call::{
    issue_step, DbCredsView, IssueActionView, IssueCallView, IssueEventView, IssuePhase,
};
use crate::login::{login_step, LoginActionView, LoginEventView, LoginPhase};
use crate::revoke_call::{
    revoke_step, RevokeActionView, RevokeCallView, RevokeEventView, RevokePhase,
};
use crate::text::preview_of;
use vstd::prelude::*;

verus! {

/// A login for want of a cached token: it is asked for with the configured ids,
/// a successful reply is read, the token in it is the one to use, and from then
/// on it is cached.
pub open spec fn logs_in(
    client: ClientView,
    state: AuthStateView,
    status: u16,
    token: Seq<char>,
    cache: AuthStateView,
) -> bool {
    let (asked, step) = token_step(client, state);
    let (phase, replied, read) = login_step(
        LoginPhase::Sent,
        asked,
        LoginEventView::Replied { status },
    );
    let (done, after, action) = login_step(phase, replied, LoginEventView::TokenRead { token });
    &&& step == (TokenStepView::Login {
        request: login_request(
            client,
            state.config->role_id,
            state.config->secret_id,
            state.config->mount_path,
        ),
    })
    &&& read is ReadToken
    &&& action == (LoginActionView::Finish { result: Ok(token) })
    &&& after == cache
    &&& token_step(client, cache) == (cache, TokenStepView::Ready { token })
}

/// With AppRole, the first reply to a request for credentials that the token is
/// not good leads to a login, the second request carries the token that the
/// login read, credentials in its reply are the result, and the new token is
/// cached.
pub proof fn law_issue_renews_token(
    client: ClientView,
    call: IssueCallView,
    state: AuthStateView,
    login_status: u16,
    token: Seq<char>,
    status: u16,
    creds: DbCredsView,
)
    requires
        state.config is Approle,
        call.phase == IssuePhase::Sent,
        !call.retried,
        success(login_status),
        success(status),
    ensures
        ({
            let (waiting, action) = issue_step(
                client,
                call,
                IssueEventView::Replied { status: UNAUTHORIZED },
            );
            let (sent, request) = issue_step(
                client,
                waiting,
                IssueEventView::TokenObtained { token },
            );
            let (reading, read) = issue_step(client, sent, IssueEventView::Replied { status });
            let (done, result) = issue_step(client, reading, IssueEventView::CredsRead { creds });
            &&& action is Reauthenticate
            &&& logs_in(
                client,
                token_dropped(state),
                login_status,
                token,
                AuthStateView { config: state.config, token: Some(token) },
            )
            &&& request == (IssueActionView::Send {
                request: creds_request(client, call.role, token),
            })
            &&& read is ReadCreds
            &&& result == (IssueActionView::Finish { result: Ok(creds) })
        }),
{
}

/// With AppRole, the first reply to a revocation that the token is not good
/// leads to a login, the second request is for the same lease and carries the
/// token that the login read, a success is the result, and the new token is
/// cached.
pub proof fn law_revocation_renews_token(
    config: ConfigView,
    call: RevokeCallView,
    state: AuthStateView,
    login_status: u16,
    token: Seq<char>,
    status: u16,
)
    requires
        config.auth is Approle,
        state.config == config.auth,
        call.phase == RevokePhase::Sent,
        !call.retried,
        success(login_status),
        success(status),
    ensures
        ({
            let client = client_of(config);
            let (waiting, action) = revoke_step(
                client,
                call,
                RevokeEventView::Replied { status: UNAUTHORIZED },
            );
            let (sent, request) = revoke_step(
                client,
                waiting,
                RevokeEventView::TokenObtained { token },
            );
            let (done, result) = revoke_step(client, sent, RevokeEventView::Replied { status });
            &&& action is Reauthenticate
            &&& logs_in(
                client,
                token_dropped(state),
                login_status,
                token,
                AuthStateView { config: state.config, token: Some(token) },
            )
            &&& request == (RevokeActionView::Send {
                request: revoke_request(client, call.lease_id, token),
            })
            &&& result == (RevokeActionView::Finish { result: Ok(()) })
        }),
{
}

/// A token of the operator's is not renewed: the first reply to a revocation
/// that it is not good is an error.
pub proof fn law_operator_token_is_not_renewed(
    config: ConfigView,
    call: RevokeCallView,
    text: Seq<char>,
)
    requires
        config.auth is Token,
        call.phase == RevokePhase::Sent,
    ensures
        ({
            let client = client_of(config);
            let (reading, action) = revoke_step(
                client,
                call,
                RevokeEventView::Replied { status: UNAUTHORIZED },
            );
            &&& action is ReadText
            &&& revoke_step(client, reading, RevokeEventView::TextRead { text }).1 == (
            RevokeActionView::Finish {
                result: Err(
                    CredentialErrorView::Backend {
                        reason: "revoke_lease failed ("@ + status_line(UNAUTHORIZED) + "): "@
                            + preview_of(text),
                    },
                ),
            })
        }),
{
}

} // verus!
