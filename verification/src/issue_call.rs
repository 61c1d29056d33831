//! The request for database credentials, step by step.

use crate::client::{auth_headers, creds_request, ClientView, VaultClient};
use crate::credential::{CredentialError, CredentialErrorView};
use crate::http::{
    http_status, is_success, status_line, status_text, success, Method, RequestView, VaultRequest,
    UNAUTHORIZED,
};
use crate::text::{preview, preview_of};
use vstd::pervasive::unreached;
use vstd::prelude::*;

verus! {

/// The error for a reply to a request for credentials that is no success.
pub open spec fn vault_error(status: u16, text: Seq<char>, role: Seq<char>) -> CredentialErrorView {
    let quote = preview_of(text);
    if status == 403 {
        CredentialErrorView::NotAuthorized {
            reason: "vault: role `"@ + role + "` denied access ("@ + quote + ")"@,
        }
    } else if status == 429 {
        CredentialErrorView::Throttled { reason: "vault: rate limited ("@ + quote + ")"@ }
    } else if 400 <= status <= 499 {
        CredentialErrorView::Misconfigured {
            reason: "vault returned "@ + status_line(status) + " for role `"@ + role + "`: "@
                + quote,
        }
    } else if 500 <= status <= 599 {
        CredentialErrorView::Backend {
            reason: "vault "@ + status_line(status) + ": "@ + quote,
        }
    } else {
        CredentialErrorView::Backend {
            reason: "vault unexpected status "@ + status_line(status) + ": "@ + quote,
        }
    }
}

/// Maps a reply that is no success to an error, which quotes the beginning of
/// the reply's text.
pub fn map_vault_error(status: u16, body_text: &str, role: &str) -> (error: CredentialError)
    requires
        http_status(status),
    ensures
        error@ == vault_error(status, body_text@, role@),
{
    let quote = preview(body_text);
    if status == 403 {
        let mut reason = "vault: role `".to_owned();
        reason.append(role);
        reason.append("` denied access (");
        reason.append(quote.as_str());
        reason.append(")");
        CredentialError::NotAuthorized { reason }
    } else if status == 429 {
        let mut reason = "vault: rate limited (".to_owned();
        reason.append(quote.as_str());
        reason.append(")");
        CredentialError::Throttled { reason }
    } else if 400 <= status && status <= 499 {
        let mut reason = "vault returned ".to_owned();
        reason.append(status_text(status).as_str());
        reason.append(" for role `");
        reason.append(role);
        reason.append("`: ");
        reason.append(quote.as_str());
        CredentialError::Misconfigured { reason }
    } else if 500 <= status && status <= 599 {
        let mut reason = "vault ".to_owned();
        reason.append(status_text(status).as_str());
        reason.append(": ");
        reason.append(quote.as_str());
        CredentialError::Backend { reason }
    } else {
        let mut reason = "vault unexpected status ".to_owned();
        reason.append(status_text(status).as_str());
        reason.append(": ");
        reason.append(quote.as_str());
        CredentialError::Backend { reason }
    }
}

/// Database credentials and their lease.
#[derive(Debug)]
pub struct DbCreds {
    pub username: String,
    pub password: String,
    pub lease_id: String,
    /// How long the lease lasts, in seconds.
    pub lease_duration: u64,
}

/// What the contracts speak of for [`DbCreds`].
pub struct DbCredsView {
    pub username: Seq<char>,
    pub password: Seq<char>,
    pub lease_id: Seq<char>,
    pub lease_duration: u64,
}

impl View for DbCreds {
    type V = DbCredsView;

    open spec fn view(&self) -> DbCredsView {
        DbCredsView {
            username: self.username@,
            password: self.password@,
            lease_id: self.lease_id@,
            lease_duration: self.lease_duration,
        }
    }
}

/// How far a request for credentials has come.
#[derive(Debug, Clone, Copy, PartialEq, Eq, Structural)]
pub enum IssuePhase {
    /// A token is to be had first.
    NeedToken,
    /// The request is out.
    Sent,
    /// Vault issued credentials; they are being read.
    ReadingCreds,
    /// Vault refused with this status; its words are being read.
    ReadingRefusal { status: u16 },
    /// Nothing is left to do.
    Done,
}

/// What can come of a request for credentials.
#[derive(Debug)]
pub enum IssueEvent {
    /// A token to use.
    TokenObtained { token: String },
    /// There is no token to be had.
    TokenRefused { error: CredentialError },
    /// The request did not get through.
    SendFailed { reason: String },
    /// A reply with this status.
    Replied { status: u16 },
    /// The credentials in the reply.
    CredsRead { creds: DbCreds },
    /// The reply holds no credentials that can be read.
    CredsUnreadable { reason: String },
    /// The text of the reply.
    TextRead { text: String },
}

/// What the contracts speak of for an [`IssueEvent`].
pub enum IssueEventView {
    TokenObtained { token: Seq<char> },
    TokenRefused { error: CredentialErrorView },
    SendFailed { reason: Seq<char> },
    Replied { status: u16 },
    CredsRead { creds: DbCredsView },
    CredsUnreadable { reason: Seq<char> },
    TextRead { text: Seq<char> },
}

impl View for IssueEvent {
    type V = IssueEventView;

    open spec fn view(&self) -> IssueEventView {
        match *self {
            IssueEvent::TokenObtained { token } => IssueEventView::TokenObtained { token: token@ },
            IssueEvent::TokenRefused { error } => IssueEventView::TokenRefused { error: error@ },
            IssueEvent::SendFailed { reason } => IssueEventView::SendFailed { reason: reason@ },
            IssueEvent::Replied { status } => IssueEventView::Replied { status },
            IssueEvent::CredsRead { creds } => IssueEventView::CredsRead { creds: creds@ },
            IssueEvent::CredsUnreadable { reason } => IssueEventView::CredsUnreadable {
                reason: reason@,
            },
            IssueEvent::TextRead { text } => IssueEventView::TextRead { text: text@ },
        }
    }
}

/// What the caller is to do next in a request for credentials.
#[derive(Debug)]
pub enum IssueAction {
    /// Send this.
    Send { request: VaultRequest },
    /// Drop the cached token, then get a token.
    Reauthenticate,
    /// Read the credentials out of the reply.
    ReadCreds,
    /// Read the reply's text.
    ReadText,
    /// The call is over: here are the credentials, or why there are none.
    Finish { result: Result<DbCreds, CredentialError> },
}

/// What the contracts speak of for an [`IssueAction`].
pub enum IssueActionView {
    Send { request: RequestView },
    Reauthenticate,
    ReadCreds,
    ReadText,
    Finish { result: Result<DbCredsView, CredentialErrorView> },
}

impl View for IssueAction {
    type V = IssueActionView;

    open spec fn view(&self) -> IssueActionView {
        match *self {
            IssueAction::Send { request } => IssueActionView::Send { request: request@ },
            IssueAction::Reauthenticate => IssueActionView::Reauthenticate,
            IssueAction::ReadCreds => IssueActionView::ReadCreds,
            IssueAction::ReadText => IssueActionView::ReadText,
            IssueAction::Finish { result } => IssueActionView::Finish {
                result: match result {
                    Ok(creds) => Ok(creds@),
                    Err(error) => Err(error@),
                },
            },
        }
    }
}

/// A request for credentials of a role that is under way.
#[derive(Debug)]
pub struct IssueCall {
    pub role: String,
    /// Whether the token was already renewed in this call.
    pub retried: bool,
    pub phase: IssuePhase,
}

/// What the contracts speak of for an [`IssueCall`].
pub struct IssueCallView {
    pub role: Seq<char>,
    pub retried: bool,
    pub phase: IssuePhase,
}

impl View for IssueCall {
    type V = IssueCallView;

    open spec fn view(&self) -> IssueCallView {
        IssueCallView { role: self.role@, retried: self.retried, phase: self.phase }
    }
}

/// The call for a role, before anything is done for it.
pub open spec fn new_issue_call(role: Seq<char>) -> IssueCallView {
    IssueCallView { role, retried: false, phase: IssuePhase::NeedToken }
}

/// The events that can come in a phase of a request for credentials.
pub open spec fn issue_expects(phase: IssuePhase, event: IssueEventView) -> bool {
    match phase {
        IssuePhase::NeedToken => event is TokenObtained || event is TokenRefused,
        IssuePhase::Sent => match event {
            IssueEventView::SendFailed { .. } => true,
            IssueEventView::Replied { status } => http_status(status),
            _ => false,
        },
        IssuePhase::ReadingCreds => event is CredsRead || event is CredsUnreadable,
        IssuePhase::ReadingRefusal { status } => http_status(status) && event is TextRead,
        IssuePhase::Done => false,
    }
}

/// What an event in a request for credentials leads to: the call after it, and
/// what to do. The first reply that the token is not good renews the token and
/// tries again; every later one is an error like any other.
pub open spec fn issue_step(client: ClientView, call: IssueCallView, event: IssueEventView) -> (
    IssueCallView,
    IssueActionView,
) {
    let done = IssueCallView { phase: IssuePhase::Done, ..call };
    match event {
        IssueEventView::TokenObtained { token } => (
            IssueCallView { phase: IssuePhase::Sent, ..call },
            IssueActionView::Send { request: creds_request(client, call.role, token) },
        ),
        IssueEventView::TokenRefused { error } => (
            done,
            IssueActionView::Finish { result: Err(error) },
        ),
        IssueEventView::SendFailed { reason } => (
            done,
            IssueActionView::Finish {
                result: Err(
                    CredentialErrorView::Backend { reason: "issue_db_creds request: "@ + reason },
                ),
            },
        ),
        IssueEventView::Replied { status } => if status == UNAUTHORIZED && !call.retried {
            (
                IssueCallView { retried: true, phase: IssuePhase::NeedToken, ..call },
                IssueActionView::Reauthenticate,
            )
        } else if success(status) {
            (IssueCallView { phase: IssuePhase::ReadingCreds, ..call }, IssueActionView::ReadCreds)
        } else {
            (
                IssueCallView { phase: IssuePhase::ReadingRefusal { status }, ..call },
                IssueActionView::ReadText,
            )
        },
        IssueEventView::CredsRead { creds } => (
            done,
            IssueActionView::Finish { result: Ok(creds) },
        ),
        IssueEventView::CredsUnreadable { reason } => (
            done,
            IssueActionView::Finish {
                result: Err(
                    CredentialErrorView::Backend { reason: "issue_db_creds json: "@ + reason },
                ),
            },
        ),
        IssueEventView::TextRead { text } => (
            done,
            IssueActionView::Finish {
                result: Err(vault_error(call.phase->ReadingRefusal_status, text, call.role)),
            },
        ),
    }
}

impl VaultClient {
    /// Begins a request for credentials of `role`. A token is needed first.
    pub fn issue_db_creds(&self, role: &str) -> (call: IssueCall)
        ensures
            call@ == new_issue_call(role@),
    {
        IssueCall { role: role.to_owned(), retried: false, phase: IssuePhase::NeedToken }
    }

    /// The request for credentials of `role`.
    fn creds_request(&self, role: &str, token: &str) -> (request: VaultRequest)
        ensures
            request@ == creds_request(self@, role@, token@),
    {
        let mut url = self.base_url.clone();
        url.append("/v1/");
        url.append(self.db_mount.as_str());
        url.append("/creds/");
        url.append(role);
        let headers: Vec<(String, String)> = Vec::new();
        let request = VaultRequest { method: Method::Post, url, headers, body: None };
        let res = self.add_auth_headers(request, token);
        assert(res@.headers =~= auth_headers(self@, token@));
        res
    }
}

impl IssueCall {
    /// Takes what has come of the last action and says what to do next.
    pub fn step(&mut self, client: &VaultClient, event: IssueEvent) -> (action: IssueAction)
        requires
            issue_expects(old(self).phase, event@),
        ensures
            (final(self)@, action@) == issue_step(client@, old(self)@, event@),
    {
        match event {
            IssueEvent::TokenObtained { token } => {
                self.phase = IssuePhase::Sent;
                let request = client.creds_request(self.role.as_str(), token.as_str());
                IssueAction::Send { request }
            },
            IssueEvent::TokenRefused { error } => {
                self.phase = IssuePhase::Done;
                IssueAction::Finish { result: Err(error) }
            },
            IssueEvent::SendFailed { reason } => {
                self.phase = IssuePhase::Done;
                let mut words = "issue_db_creds request: ".to_owned();
                words.append(reason.as_str());
                IssueAction::Finish { result: Err(CredentialError::Backend { reason: words }) }
            },
            IssueEvent::Replied { status } => {
                if status == UNAUTHORIZED && !self.retried {
                    self.retried = true;
                    self.phase = IssuePhase::NeedToken;
                    IssueAction::Reauthenticate
                } else if is_success(status) {
                    self.phase = IssuePhase::ReadingCreds;
                    IssueAction::ReadCreds
                } else {
                    self.phase = IssuePhase::ReadingRefusal { status };
                    IssueAction::ReadText
                }
            },
            IssueEvent::CredsRead { creds } => {
                self.phase = IssuePhase::Done;
                IssueAction::Finish { result: Ok(creds) }
            },
            IssueEvent::CredsUnreadable { reason } => {
                self.phase = IssuePhase::Done;
                let mut words = "issue_db_creds json: ".to_owned();
                words.append(reason.as_str());
                IssueAction::Finish { result: Err(CredentialError::Backend { reason: words }) }
            },
            IssueEvent::TextRead { text } => {
                let status: u16 = match self.phase {
                    IssuePhase::ReadingRefusal { status } => status,
                    _ => unreached(),
                };
                self.phase = IssuePhase::Done;
                let error = map_vault_error(status, text.as_str(), self.role.as_str());
                IssueAction::Finish { result: Err(error) }
            },
        }
    }
}

/// What the class of an error follows from: a denial means that the caller is
/// not authorized, a rate limit that Vault is busy, any other client error that
/// the configuration is wrong, and all else that Vault did not do its part.
pub proof fn law_error_classes(status: u16, text: Seq<char>, role: Seq<char>)
    ensures
        vault_error(status, text, role) is NotAuthorized <==> status == 403,
        vault_error(status, text, role) is Throttled <==> status == 429,
        vault_error(status, text, role) is Misconfigured <==> 400 <= status <= 499 && status != 403
            && status != 429,
        vault_error(status, text, role) is Backend <==> !(400 <= status <= 499),
{
}

/// An error never quotes more of a reply than its preview: replies that begin
/// alike give the same error.
pub proof fn law_error_quotes_preview_only(
    status: u16,
    text1: Seq<char>,
    text2: Seq<char>,
    role: Seq<char>,
)
    requires
        preview_of(text1) == preview_of(text2),
    ensures
        vault_error(status, text1, role) == vault_error(status, text2, role),
{
}

/// The events of a request for credentials that can come in a row.
pub open spec fn issue_accepts(
    client: ClientView,
    call: IssueCallView,
    events: Seq<IssueEventView>,
) -> bool
    decreases events.len(),
{
    events.len() == 0 || (issue_expects(call.phase, events[0]) && issue_accepts(
        client,
        issue_step(client, call, events[0]).0,
        events.drop_first(),
    ))
}

/// What the caller is told to do, event by event.
pub open spec fn issue_actions(
    client: ClientView,
    call: IssueCallView,
    events: Seq<IssueEventView>,
) -> Seq<IssueActionView>
    decreases events.len(),
{
    if events.len() == 0 {
        Seq::empty()
    } else {
        let (next, action) = issue_step(client, call, events[0]);
        seq![action] + issue_actions(client, next, events.drop_first())
    }
}

/// How many requests a row of actions sends.
pub open spec fn requests_sent(actions: Seq<IssueActionView>) -> nat
    decreases actions.len(),
{
    if actions.len() == 0 {
        0
    } else {
        (if actions[0] is Send {
            1nat
        } else {
            0nat
        }) + requests_sent(actions.drop_first())
    }
}

/// How many events can still come.
pub open spec fn events_left(call: IssueCallView) -> nat {
    match call.phase {
        IssuePhase::NeedToken => if call.retried {
            3
        } else {
            5
        },
        IssuePhase::Sent => if call.retried {
            2
        } else {
            4
        },
        IssuePhase::ReadingCreds => 1,
        IssuePhase::ReadingRefusal { .. } => 1,
        IssuePhase::Done => 0,
    }
}

/// How many requests can still be sent.
spec fn requests_left(call: IssueCallView) -> nat {
    match call.phase {
        IssuePhase::NeedToken => if call.retried {
            1
        } else {
            2
        },
        IssuePhase::Sent => if call.retried {
            0
        } else {
            1
        },
        _ => 0,
    }
}

/// Every request for credentials comes to an end: from its beginning, five
/// events at the most, and it has ended exactly when its result is there.
pub proof fn law_issue_call_ends(
    client: ClientView,
    call: IssueCallView,
    events: Seq<IssueEventView>,
)
    requires
        issue_accepts(client, call, events),
    ensures
        events.len() <= events_left(call),
        events.len() > 0 ==> (issue_step(client, call, events[0]).0.phase == IssuePhase::Done <==>
            issue_step(client, call, events[0]).1 is Finish),
    decreases events.len(),
{
    if events.len() > 0 {
        let next = issue_step(client, call, events[0]).0;
        law_issue_call_ends(client, next, events.drop_first());
    }
}

proof fn lemma_requests_left(client: ClientView, call: IssueCallView, events: Seq<IssueEventView>)
    requires
        issue_accepts(client, call, events),
    ensures
        requests_sent(issue_actions(client, call, events)) <= requests_left(call),
        !events.contains(IssueEventView::Replied { status: UNAUTHORIZED }) ==> requests_sent(
            issue_actions(client, call, events),
        ) <= (if call.phase == IssuePhase::NeedToken {
            1nat
        } else {
            0nat
        }),
        forall|i: int|
            #![trigger issue_actions(client, call, events)[i]]
            0 <= i < events.len() ==> (issue_actions(client, call, events)[i]
                matches IssueActionView::Send { request } ==> exists|token: Seq<char>|
                request == #[trigger] creds_request(client, call.role, token)),
        issue_actions(client, call, events).len() == events.len(),
    decreases events.len(),
{
    if events.len() > 0 {
        let (next, action) = issue_step(client, call, events[0]);
        let rest = events.drop_first();
        lemma_requests_left(client, next, rest);
        let tail = issue_actions(client, next, rest);
        let actions = issue_actions(client, call, events);
        assert(actions.drop_first() =~= tail);
        assert(next.role == call.role);
        let refused = IssueEventView::Replied { status: UNAUTHORIZED };
        if !events.contains(refused) {
            assert(events[0] != refused) by {
                if events[0] == refused {
                    assert(events.contains(events[0]));
                }
            }
            assert(!rest.contains(refused)) by {
                if rest.contains(refused) {
                    let j = choose|j: int| 0 <= j < rest.len() && rest[j] == refused;
                    assert(events[j + 1] == refused);
                }
            }
        }
        assert forall|i: int|
            #![trigger actions[i]]
            0 <= i < events.len() implies (actions[i] matches IssueActionView::Send { request }
            ==> exists|token: Seq<char>|
            request == #[trigger] creds_request(client, call.role, token)) by {
            if i > 0 {
                assert(actions[i] == tail[i - 1]);
            } else {
                assert(actions[0] == action);
            }
        }
    }
}

/// One call asks Vault for credentials at most twice, always for its own role,
/// and a second time only if Vault replied that the token was not good.
pub proof fn law_at_most_one_retry(
    client: ClientView,
    role: Seq<char>,
    events: Seq<IssueEventView>,
)
    requires
        issue_accepts(client, new_issue_call(role), events),
    ensures
        requests_sent(issue_actions(client, new_issue_call(role), events)) <= 2,
        requests_sent(issue_actions(client, new_issue_call(role), events)) == 2
            ==> events.contains(IssueEventView::Replied { status: UNAUTHORIZED }),
        forall|i: int|
            #![trigger issue_actions(client, new_issue_call(role), events)[i]]
            0 <= i < events.len() ==> (issue_actions(client, new_issue_call(role), events)[i]
                matches IssueActionView::Send { request } ==> exists|token: Seq<char>|
                request == #[trigger] creds_request(client, role, token)),
{
    lemma_requests_left(client, new_issue_call(role), events);
}

/// The first reply that the token is not good renews the token; the second is an
/// error of its own, as every other refusal is at once.
pub proof fn law_unauthorized_reply(client: ClientView, call: IssueCallView, status: u16)
    requires
        call.phase == IssuePhase::Sent,
        http_status(status),
        !success(status),
    ensures
        ({
            let (next, action) = issue_step(client, call, IssueEventView::Replied { status });
            if status == UNAUTHORIZED && !call.retried {
                action is Reauthenticate && next.phase == IssuePhase::NeedToken && next.retried
            } else {
                action is ReadText && forall|text: Seq<char>|
                    #[trigger] issue_step(client, next, IssueEventView::TextRead { text }).1 == (
                    IssueActionView::Finish { result: Err(vault_error(status, text, call.role)) })
            }
        }),
{
}

/// Credentials come out of a call only if they were read from a reply, and they
/// are read only from a reply that reports success.
pub proof fn law_creds_come_from_vault(
    client: ClientView,
    call: IssueCallView,
    event: IssueEventView,
    creds: DbCredsView,
)
    requires
        issue_expects(call.phase, event),
    ensures
        issue_step(client, call, event).1 == (IssueActionView::Finish { result: Ok(creds) })
            <==> event == (IssueEventView::CredsRead { creds }),
        event is CredsRead ==> call.phase == IssuePhase::ReadingCreds,
        issue_step(client, call, event).0.phase == IssuePhase::ReadingCreds <==> (event matches
            IssueEventView::Replied { status } && success(status)),
{
}

/// What an error for a reply says: a denial names the role, any other client
/// error but a rate limit names the status and the role, everything else the
/// status; and all quote the beginning of the reply.
pub proof fn law_error_words(status: u16, text: Seq<char>, role: Seq<char>)
    ensures
        vault_error(403, text, role) == (CredentialErrorView::NotAuthorized {
            reason: "vault: role `"@ + role + "` denied access ("@ + preview_of(text) + ")"@,
        }),
        vault_error(429, text, role) == (CredentialErrorView::Throttled {
            reason: "vault: rate limited ("@ + preview_of(text) + ")"@,
        }),
        status / 100 == 4 && status != 403 && status != 429 ==> vault_error(status, text, role)
            == (CredentialErrorView::Misconfigured {
            reason: "vault returned "@ + status_line(status) + " for role `"@ + role + "`: "@
                + preview_of(text),
        }),
        status / 100 == 5 ==> vault_error(status, text, role) == (CredentialErrorView::Backend {
            reason: "vault "@ + status_line(status) + ": "@ + preview_of(text),
        }),
        status / 100 != 4 && status / 100 != 5 ==> vault_error(status, text, role) == (
        CredentialErrorView::Backend {
            reason: "vault unexpected status "@ + status_line(status) + ": "@ + preview_of(text),
        }),
{
}

/// What a request for credentials comes to, event by event: a token is sent with
/// the request for the call's own role, an error on the way to a token is the
/// result as it is, credentials that were read are the result as they are, and a
/// failure says in its words where it lies and why. The role never changes.
pub proof fn law_issue_outcomes(
    client: ClientView,
    call: IssueCallView,
    event: IssueEventView,
    words: Seq<char>,
    error: CredentialErrorView,
    creds: DbCredsView,
    status: u16,
)
    ensures
        issue_step(client, call, event).0.role == call.role,
        call.retried ==> issue_step(client, call, event).0.retried,
        issue_step(client, call, IssueEventView::TokenObtained { token: words }).1 == (
        IssueActionView::Send { request: creds_request(client, call.role, words) }),
        issue_step(client, call, IssueEventView::TokenRefused { error }).1 == (
        IssueActionView::Finish { result: Err(error) }),
        issue_step(client, call, IssueEventView::SendFailed { reason: words }).1 == (
        IssueActionView::Finish {
            result: Err(
                CredentialErrorView::Backend { reason: "issue_db_creds request: "@ + words },
            ),
        }),
        issue_step(client, call, IssueEventView::CredsRead { creds }).1 == (
        IssueActionView::Finish { result: Ok(creds) }),
        issue_step(client, call, IssueEventView::CredsUnreadable { reason: words }).1 == (
        IssueActionView::Finish {
            result: Err(CredentialErrorView::Backend { reason: "issue_db_creds json: "@ + words }),
        }),
        issue_step(
            client,
            IssueCallView { phase: IssuePhase::ReadingRefusal { status }, ..call },
            IssueEventView::TextRead { text: words },
        ).1 == (IssueActionView::Finish { result: Err(vault_error(status, words, call.role)) }),
        status / 100 == 2 ==> issue_step(client, call, IssueEventView::Replied { status }).1
            is ReadCreds,
        status == 401 && !call.retried ==> issue_step(
            client,
            call,
            IssueEventView::Replied { status },
        ).1 is Reauthenticate,
        status / 100 != 2 && (status != 401 || call.retried) ==> issue_step(
            client,
            call,
            IssueEventView::Replied { status },
        ) == (
            IssueCallView { phase: IssuePhase::ReadingRefusal { status }, ..call },
            IssueActionView::ReadText,
        ),
{
}

/// A call begins with its whole role, without a token, and with its one renewal
/// still to come. Whoever does what it says can hand in every outcome.
pub proof fn law_issue_takes_every_outcome(
    client: ClientView,
    role: Seq<char>,
    call: IssueCallView,
    event: IssueEventView,
    words: Seq<char>,
    error: CredentialErrorView,
    creds: DbCredsView,
    status: u16,
)
    requires
        issue_expects(call.phase, event),
    ensures
        new_issue_call(role).role == role,
        !new_issue_call(role).retried,
        issue_expects(new_issue_call(role).phase, IssueEventView::TokenObtained { token: words }),
        issue_expects(new_issue_call(role).phase, IssueEventView::TokenRefused { error }),
        ({
            let (next, action) = issue_step(client, call, event);
            &&& action is Send ==> issue_expects(
                next.phase,
                IssueEventView::SendFailed { reason: words },
            ) && (100 <= status <= 999 ==> issue_expects(
                next.phase,
                IssueEventView::Replied { status },
            ))
            &&& action is Reauthenticate ==> issue_expects(
                next.phase,
                IssueEventView::TokenObtained { token: words },
            ) && issue_expects(next.phase, IssueEventView::TokenRefused { error })
            &&& action is ReadCreds ==> issue_expects(
                next.phase,
                IssueEventView::CredsRead { creds },
            ) && issue_expects(next.phase, IssueEventView::CredsUnreadable { reason: words })
            &&& action is ReadText ==> issue_expects(
                next.phase,
                IssueEventView::TextRead { text: words },
            )
        }),
{
}

/// The contracts speak of all of the credentials.
pub proof fn law_creds_are_viewed_whole(creds: DbCreds)
    ensures
        creds@.username == creds.username@,
        creds@.password == creds.password@,
        creds@.lease_id == creds.lease_id@,
        creds@.lease_duration == creds.lease_duration,
{
}

/// The contracts speak of an action by its kind and all that it holds.
pub proof fn law_issue_action_is_viewed_whole(action: IssueAction)
    ensures
        action is Reauthenticate <==> action@ is Reauthenticate,
        action is ReadCreds <==> action@ is ReadCreds,
        action is ReadText <==> action@ is ReadText,
        action matches IssueAction::Send { request } ==> action@ == (IssueActionView::Send {
            request: request@,
        }),
        action matches IssueAction::Finish { result: Ok(value) } ==> action@ == (
        IssueActionView::Finish { result: Ok(value@) }),
        action matches IssueAction::Finish { result: Err(error) } ==> action@ == (
        IssueActionView::Finish { result: Err(error@) }),
{
}

/// The contracts speak of an event by its kind and all that it holds.
pub proof fn law_issue_event_is_viewed_whole(event: IssueEvent)
    ensures
        event matches IssueEvent::TokenObtained { token } ==> event@ == (
        IssueEventView::TokenObtained { token: token@ }),
        event matches IssueEvent::TokenRefused { error } ==> event@ == (
        IssueEventView::TokenRefused { error: error@ }),
        event matches IssueEvent::SendFailed { reason } ==> event@ == (
        IssueEventView::SendFailed { reason: reason@ }),
        event matches IssueEvent::Replied { status } ==> event@ == (
        IssueEventView::Replied { status }),
        event matches IssueEvent::CredsRead { creds } ==> event@ == (
        IssueEventView::CredsRead { creds: creds@ }),
        event matches IssueEvent::CredsUnreadable { reason } ==> event@ == (
        IssueEventView::CredsUnreadable { reason: reason@ }),
        event matches IssueEvent::TextRead { text } ==> event@ == (
        IssueEventView::TextRead { text: text@ }),
{
}

} // verus!
