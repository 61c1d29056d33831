//! The revocation of a lease, step by step.

use crate::client::{auth_headers, revoke_request, ClientView, VaultClient};
use crate::credential::{CredentialError, CredentialErrorView};
use crate::http::{
    http_status, is_success, pairs_of, status_line, status_text, success, Method, RequestView,
    VaultRequest, UNAUTHORIZED,
};
use crate::text::{preview, preview_of};
use vstd::pervasive::unreached;
use vstd::prelude::*;

verus! {

/// How far the revocation of a lease has come.
#[derive(Debug, Clone, Copy, PartialEq, Eq, Structural)]
pub enum RevokePhase {
    /// A token is to be had first.
    NeedToken,
    /// The request is out.
    Sent,
    /// Vault refused with this status; its words are being read.
    ReadingRefusal { status: u16 },
    /// Nothing is left to do.
    Done,
}

/// What can come of a revocation.
#[derive(Debug)]
pub enum RevokeEvent {
    /// A token to use.
    TokenObtained { token: String },
    /// There is no token to be had.
    TokenRefused { error: CredentialError },
    /// The request did not get through.
    SendFailed { reason: String },
    /// A reply with this status.
    Replied { status: u16 },
    /// The text of the reply.
    TextRead { text: String },
}

/// What the contracts speak of for a [`RevokeEvent`].
pub enum RevokeEventView {
    TokenObtained { token: Seq<char> },
    TokenRefused { error: CredentialErrorView },
    SendFailed { reason: Seq<char> },
    Replied { status: u16 },
    TextRead { text: Seq<char> },
}

impl View for RevokeEvent {
    type V = RevokeEventView;

    open spec fn view(&self) -> RevokeEventView {
        match *self {
            RevokeEvent::TokenObtained { token } => RevokeEventView::TokenObtained {
                token: token@,
            },
            RevokeEvent::TokenRefused { error } => RevokeEventView::TokenRefused { error: error@ },
            RevokeEvent::SendFailed { reason } => RevokeEventView::SendFailed { reason: reason@ },
            RevokeEvent::Replied { status } => RevokeEventView::Replied { status },
            RevokeEvent::TextRead { text } => RevokeEventView::TextRead { text: text@ },
        }
    }
}

/// What the caller is to do next in a revocation.
#[derive(Debug)]
pub enum RevokeAction {
    /// Send this.
    Send { request: VaultRequest },
    /// Drop the cached token, then get a token.
    Reauthenticate,
    /// Read the reply's text.
    ReadText,
    /// The call is over, and the lease is revoked, or here is why not.
    Finish { result: Result<(), CredentialError> },
}

/// What the contracts speak of for a [`RevokeAction`].
pub enum RevokeActionView {
    Send { request: RequestView },
    Reauthenticate,
    ReadText,
    Finish { result: Result<(), CredentialErrorView> },
}

impl View for RevokeAction {
    type V = RevokeActionView;

    open spec fn view(&self) -> RevokeActionView {
        match *self {
            RevokeAction::Send { request } => RevokeActionView::Send { request: request@ },
            RevokeAction::Reauthenticate => RevokeActionView::Reauthenticate,
            RevokeAction::ReadText => RevokeActionView::ReadText,
            RevokeAction::Finish { result } => RevokeActionView::Finish {
                result: match result {
                    Ok(_) => Ok(()),
                    Err(error) => Err(error@),
                },
            },
        }
    }
}

/// The revocation of a lease that is under way.
#[derive(Debug)]
pub struct RevokeCall {
    pub lease_id: String,
    /// Whether the token was already renewed in this call.
    pub retried: bool,
    pub phase: RevokePhase,
}

/// What the contracts speak of for a [`RevokeCall`].
pub struct RevokeCallView {
    pub lease_id: Seq<char>,
    pub retried: bool,
    pub phase: RevokePhase,
}

impl View for RevokeCall {
    type V = RevokeCallView;

    open spec fn view(&self) -> RevokeCallView {
        RevokeCallView { lease_id: self.lease_id@, retried: self.retried, phase: self.phase }
    }
}

/// The revocation of a lease, before anything is done for it.
pub open spec fn new_revoke_call(lease_id: Seq<char>) -> RevokeCallView {
    RevokeCallView { lease_id, retried: false, phase: RevokePhase::NeedToken }
}

/// The events that can come in a phase of a revocation.
pub open spec fn revoke_expects(phase: RevokePhase, event: RevokeEventView) -> bool {
    match phase {
        RevokePhase::NeedToken => event is TokenObtained || event is TokenRefused,
        RevokePhase::Sent => match event {
            RevokeEventView::SendFailed { .. } => true,
            RevokeEventView::Replied { status } => http_status(status),
            _ => false,
        },
        RevokePhase::ReadingRefusal { status } => http_status(status) && event is TextRead,
        RevokePhase::Done => false,
    }
}

/// What an event in a revocation leads to: the call after it, and what to do.
/// The first reply that the token is not good renews the token and tries again,
/// where a login can renew it; every other one is an error like any other. A
/// lease that is already gone is revoked with success, for Vault says so.
pub open spec fn revoke_step(client: ClientView, call: RevokeCallView, event: RevokeEventView) -> (
    RevokeCallView,
    RevokeActionView,
) {
    let done = RevokeCallView { phase: RevokePhase::Done, ..call };
    match event {
        RevokeEventView::TokenObtained { token } => (
            RevokeCallView { phase: RevokePhase::Sent, ..call },
            RevokeActionView::Send { request: revoke_request(client, call.lease_id, token) },
        ),
        RevokeEventView::TokenRefused { error } => (
            done,
            RevokeActionView::Finish { result: Err(error) },
        ),
        RevokeEventView::SendFailed { reason } => (
            done,
            RevokeActionView::Finish {
                result: Err(
                    CredentialErrorView::Backend { reason: "revoke_lease request: "@ + reason },
                ),
            },
        ),
        RevokeEventView::Replied { status } => if status == UNAUTHORIZED && client.renews_token
            && !call.retried {
            (
                RevokeCallView { retried: true, phase: RevokePhase::NeedToken, ..call },
                RevokeActionView::Reauthenticate,
            )
        } else if success(status) {
            (done, RevokeActionView::Finish { result: Ok(()) })
        } else {
            (
                RevokeCallView { phase: RevokePhase::ReadingRefusal { status }, ..call },
                RevokeActionView::ReadText,
            )
        },
        RevokeEventView::TextRead { text } => (
            done,
            RevokeActionView::Finish {
                result: Err(
                    CredentialErrorView::Backend {
                        reason: "revoke_lease failed ("@ + status_line(
                            call.phase->ReadingRefusal_status,
                        ) + "): "@ + preview_of(text),
                    },
                ),
            },
        ),
    }
}

impl VaultClient {
    /// Begins the revocation of a lease. A token is needed first.
    pub fn revoke_lease(&self, lease_id: &str) -> (call: RevokeCall)
        ensures
            call@ == new_revoke_call(lease_id@),
    {
        RevokeCall {
            lease_id: lease_id.to_owned(),
            retried: false,
            phase: RevokePhase::NeedToken,
        }
    }

    /// The request that revokes `lease_id`.
    fn revoke_request(&self, lease_id: &str, token: &str) -> (request: VaultRequest)
        ensures
            request@ == revoke_request(self@, lease_id@, token@),
    {
        let mut url = self.base_url.clone();
        url.append("/v1/sys/leases/revoke");
        let headers: Vec<(String, String)> = Vec::new();
        let mut members: Vec<(String, String)> = Vec::new();
        members.push(("lease_id".to_owned(), lease_id.to_owned()));
        assert(pairs_of(members@) =~= seq![("lease_id"@, lease_id@)]);
        let request = VaultRequest { method: Method::Put, url, headers, body: Some(members) };
        let res = self.add_auth_headers(request, token);
        assert(res@.headers =~= auth_headers(self@, token@));
        res
    }
}

impl RevokeCall {
    /// Takes what has come of the last action and says what to do next.
    pub fn step(&mut self, client: &VaultClient, event: RevokeEvent) -> (action: RevokeAction)
        requires
            revoke_expects(old(self).phase, event@),
        ensures
            (final(self)@, action@) == revoke_step(client@, old(self)@, event@),
    {
        match event {
            RevokeEvent::TokenObtained { token } => {
                self.phase = RevokePhase::Sent;
                let request = client.revoke_request(self.lease_id.as_str(), token.as_str());
                RevokeAction::Send { request }
            },
            RevokeEvent::TokenRefused { error } => {
                self.phase = RevokePhase::Done;
                RevokeAction::Finish { result: Err(error) }
            },
            RevokeEvent::SendFailed { reason } => {
                self.phase = RevokePhase::Done;
                let mut words = "revoke_lease request: ".to_owned();
                words.append(reason.as_str());
                RevokeAction::Finish { result: Err(CredentialError::Backend { reason: words }) }
            },
            RevokeEvent::Replied { status } => {
                if status == UNAUTHORIZED && client.renews_token && !self.retried {
                    self.retried = true;
                    self.phase = RevokePhase::NeedToken;
                    RevokeAction::Reauthenticate
                } else if is_success(status) {
                    self.phase = RevokePhase::Done;
                    RevokeAction::Finish { result: Ok(()) }
                } else {
                    self.phase = RevokePhase::ReadingRefusal { status };
                    RevokeAction::ReadText
                }
            },
            RevokeEvent::TextRead { text } => {
                let status: u16 = match self.phase {
                    RevokePhase::ReadingRefusal { status } => status,
                    _ => unreached(),
                };
                let mut words = "revoke_lease failed (".to_owned();
                words.append(status_text(status).as_str());
                words.append("): ");
                words.append(preview(text.as_str()).as_str());
                self.phase = RevokePhase::Done;
                RevokeAction::Finish { result: Err(CredentialError::Backend { reason: words }) }
            },
        }
    }
}

/// A revocation sends a request whenever it gets a token, for its own lease,
/// and succeeds exactly when Vault's reply reports success. The first reply that
/// the token is not good renews a token that a login can renew; every other
/// refusal is an error.
pub proof fn law_revocation(client: ClientView, call: RevokeCallView, event: RevokeEventView)
    requires
        revoke_expects(call.phase, event),
    ensures
        ({
            let (next, action) = revoke_step(client, call, event);
            &&& next.lease_id == call.lease_id
            &&& action is Send <==> event is TokenObtained
            &&& action matches RevokeActionView::Send { request } ==> request == revoke_request(
                client,
                call.lease_id,
                event->TokenObtained_token,
            )
            &&& action is Reauthenticate <==> client.renews_token && !call.retried && event == (
            RevokeEventView::Replied { status: UNAUTHORIZED })
            &&& action is Reauthenticate <==> next.phase == RevokePhase::NeedToken
            &&& action is Reauthenticate ==> next.retried
            &&& next.phase == RevokePhase::Done <==> action is Finish
            &&& action == (RevokeActionView::Finish { result: Ok(()) }) <==> (event matches
                RevokeEventView::Replied { status } && success(status))
        }),
{
}

/// A reply that is neither a success nor the first to say that a renewable token
/// is not good ends the call in an error that names its status. With a token of
/// the operator's that is every reply that is no success.
pub proof fn law_refused_revocation(
    client: ClientView,
    call: RevokeCallView,
    status: u16,
    text: Seq<char>,
)
    requires
        call.phase == RevokePhase::Sent,
        !success(status),
        status != UNAUTHORIZED || !client.renews_token || call.retried,
    ensures
        ({
            let (next, action) = revoke_step(client, call, RevokeEventView::Replied { status });
            action is ReadText && revoke_step(client, next, RevokeEventView::TextRead { text }).1
                == (RevokeActionView::Finish {
                result: Err(
                    CredentialErrorView::Backend {
                        reason: "revoke_lease failed ("@ + status_line(status) + "): "@
                            + preview_of(text),
                    },
                ),
            })
        }),
{
}

/// The events of a revocation that can come in a row.
pub open spec fn revoke_accepts(
    client: ClientView,
    call: RevokeCallView,
    events: Seq<RevokeEventView>,
) -> bool
    decreases events.len(),
{
    events.len() == 0 || (revoke_expects(call.phase, events[0]) && revoke_accepts(
        client,
        revoke_step(client, call, events[0]).0,
        events.drop_first(),
    ))
}

/// What the caller is told to do, event by event.
pub open spec fn revoke_actions(
    client: ClientView,
    call: RevokeCallView,
    events: Seq<RevokeEventView>,
) -> Seq<RevokeActionView>
    decreases events.len(),
{
    if events.len() == 0 {
        Seq::empty()
    } else {
        let (next, action) = revoke_step(client, call, events[0]);
        seq![action] + revoke_actions(client, next, events.drop_first())
    }
}

/// How many requests a row of actions sends.
pub open spec fn revocations_sent(actions: Seq<RevokeActionView>) -> nat
    decreases actions.len(),
{
    if actions.len() == 0 {
        0
    } else {
        (if actions[0] is Send {
            1nat
        } else {
            0nat
        }) + revocations_sent(actions.drop_first())
    }
}

/// How many events can still come.
pub open spec fn revoke_events_left(call: RevokeCallView) -> nat {
    match call.phase {
        RevokePhase::NeedToken => if call.retried {
            3
        } else {
            5
        },
        RevokePhase::Sent => if call.retried {
            2
        } else {
            4
        },
        RevokePhase::ReadingRefusal { .. } => 1,
        RevokePhase::Done => 0,
    }
}

/// Every revocation comes to an end: from its beginning, five events at the
/// most, and it has ended exactly when its result is there.
pub proof fn law_revoke_call_ends(
    client: ClientView,
    call: RevokeCallView,
    events: Seq<RevokeEventView>,
)
    requires
        revoke_accepts(client, call, events),
    ensures
        events.len() <= revoke_events_left(call),
        events.len() > 0 ==> (revoke_step(client, call, events[0]).0.phase == RevokePhase::Done
            <==> revoke_step(client, call, events[0]).1 is Finish),
    decreases events.len(),
{
    if events.len() > 0 {
        let next = revoke_step(client, call, events[0]).0;
        law_revoke_call_ends(client, next, events.drop_first());
    }
}

/// How many requests can still be sent.
spec fn revocations_left(call: RevokeCallView) -> nat {
    match call.phase {
        RevokePhase::NeedToken => if call.retried {
            1
        } else {
            2
        },
        RevokePhase::Sent => if call.retried {
            0
        } else {
            1
        },
        _ => 0,
    }
}

proof fn lemma_revocations_left(
    client: ClientView,
    call: RevokeCallView,
    events: Seq<RevokeEventView>,
)
    requires
        revoke_accepts(client, call, events),
    ensures
        revocations_sent(revoke_actions(client, call, events)) <= revocations_left(call),
        !client.renews_token || !events.contains(
            RevokeEventView::Replied { status: UNAUTHORIZED },
        ) ==> revocations_sent(revoke_actions(client, call, events)) <= (if call.phase
            == RevokePhase::NeedToken {
            1nat
        } else {
            0nat
        }),
        forall|i: int|
            #![trigger revoke_actions(client, call, events)[i]]
            0 <= i < events.len() ==> (revoke_actions(client, call, events)[i]
                matches RevokeActionView::Send { request } ==> exists|token: Seq<char>|
                request == #[trigger] revoke_request(client, call.lease_id, token)),
        revoke_actions(client, call, events).len() == events.len(),
    decreases events.len(),
{
    if events.len() > 0 {
        let (next, action) = revoke_step(client, call, events[0]);
        let rest = events.drop_first();
        lemma_revocations_left(client, next, rest);
        let tail = revoke_actions(client, next, rest);
        let actions = revoke_actions(client, call, events);
        assert(actions.drop_first() =~= tail);
        assert(next.lease_id == call.lease_id);
        let refused = RevokeEventView::Replied { status: UNAUTHORIZED };
        if !events.contains(refused) {
            assert(events[0] != refused) by {
                if events[0] == refused {
                    assert(events.contains(events[0]));
                }
            }
            assert(!rest.contains(refused)) by {
                if rest.contains(refused) {
                    let j = choose|j: int| 0 <= j < rest.len() && rest[j] == refused;
                    assert(events[j + 1] == refused);
                }
            }
        }
        assert forall|i: int|
            #![trigger actions[i]]
            0 <= i < events.len() implies (actions[i] matches RevokeActionView::Send { request }
            ==> exists|token: Seq<char>|
            request == #[trigger] revoke_request(client, call.lease_id, token)) by {
            if i > 0 {
                assert(actions[i] == tail[i - 1]);
            } else {
                assert(actions[0] == action);
            }
        }
    }
}

/// One revocation sends two requests at the most, both for its own lease, and a
/// second one only if Vault replied that the token was not good and a login can
/// renew it. With a token of the operator's it sends one.
pub proof fn law_at_most_two_revocations(
    client: ClientView,
    lease_id: Seq<char>,
    events: Seq<RevokeEventView>,
)
    requires
        revoke_accepts(client, new_revoke_call(lease_id), events),
    ensures
        revocations_sent(revoke_actions(client, new_revoke_call(lease_id), events)) <= 2,
        revocations_sent(revoke_actions(client, new_revoke_call(lease_id), events)) == 2
            ==> client.renews_token && events.contains(
            RevokeEventView::Replied { status: UNAUTHORIZED },
        ),
        forall|i: int|
            #![trigger revoke_actions(client, new_revoke_call(lease_id), events)[i]]
            0 <= i < events.len() ==> (revoke_actions(client, new_revoke_call(lease_id), events)[i]
                matches RevokeActionView::Send { request } ==> exists|token: Seq<char>|
                request == #[trigger] revoke_request(client, lease_id, token)),
{
    lemma_revocations_left(client, new_revoke_call(lease_id), events);
}

/// What a revocation comes to, event by event: a token is sent with the request
/// for the call's own lease, an error on the way to a token is the result as it
/// is, and a failure says in its words where it lies and why.
pub proof fn law_revoke_outcomes(
    client: ClientView,
    call: RevokeCallView,
    words: Seq<char>,
    error: CredentialErrorView,
    status: u16,
)
    ensures
        revoke_step(client, call, RevokeEventView::TokenObtained { token: words }).1 == (
        RevokeActionView::Send { request: revoke_request(client, call.lease_id, words) }),
        revoke_step(client, call, RevokeEventView::TokenRefused { error }).1 == (
        RevokeActionView::Finish { result: Err(error) }),
        revoke_step(client, call, RevokeEventView::SendFailed { reason: words }).1 == (
        RevokeActionView::Finish {
            result: Err(
                CredentialErrorView::Backend { reason: "revoke_lease request: "@ + words },
            ),
        }),
        revoke_step(
            client,
            RevokeCallView { phase: RevokePhase::ReadingRefusal { status }, ..call },
            RevokeEventView::TextRead { text: words },
        ).1 == (RevokeActionView::Finish {
            result: Err(
                CredentialErrorView::Backend {
                    reason: "revoke_lease failed ("@ + status_line(status) + "): "@ + preview_of(
                        words,
                    ),
                },
            ),
        }),
        status / 100 == 2 ==> revoke_step(client, call, RevokeEventView::Replied { status }).1 == (
        RevokeActionView::Finish { result: Ok(()) }),
        status == 401 && client.renews_token && !call.retried ==> revoke_step(
            client,
            call,
            RevokeEventView::Replied { status },
        ).1 is Reauthenticate,
        status / 100 != 2 && (status != 401 || !client.renews_token || call.retried)
            ==> revoke_step(client, call, RevokeEventView::Replied { status }) == (
            RevokeCallView { phase: RevokePhase::ReadingRefusal { status }, ..call },
            RevokeActionView::ReadText,
        ),
{
}

/// A revocation begins with its whole lease id, without a token, and with its
/// one renewal still to come. Whoever does what it says can hand in every
/// outcome.
pub proof fn law_revoke_takes_every_outcome(
    client: ClientView,
    lease_id: Seq<char>,
    call: RevokeCallView,
    event: RevokeEventView,
    words: Seq<char>,
    error: CredentialErrorView,
    status: u16,
)
    requires
        revoke_expects(call.phase, event),
    ensures
        new_revoke_call(lease_id).lease_id == lease_id,
        !new_revoke_call(lease_id).retried,
        revoke_expects(
            new_revoke_call(lease_id).phase,
            RevokeEventView::TokenObtained { token: words },
        ),
        revoke_expects(new_revoke_call(lease_id).phase, RevokeEventView::TokenRefused { error }),
        ({
            let (next, action) = revoke_step(client, call, event);
            &&& action is Send ==> revoke_expects(
                next.phase,
                RevokeEventView::SendFailed { reason: words },
            ) && (100 <= status <= 999 ==> revoke_expects(
                next.phase,
                RevokeEventView::Replied { status },
            ))
            &&& action is Reauthenticate ==> revoke_expects(
                next.phase,
                RevokeEventView::TokenObtained { token: words },
            ) && revoke_expects(next.phase, RevokeEventView::TokenRefused { error })
            &&& action is ReadText ==> revoke_expects(
                next.phase,
                RevokeEventView::TextRead { text: words },
            )
        }),
{
}

/// The contracts speak of an action by its kind and all that it holds.
pub proof fn law_revoke_action_is_viewed_whole(action: RevokeAction)
    ensures
        action is Reauthenticate <==> action@ is Reauthenticate,
        action is ReadText <==> action@ is ReadText,
        action matches RevokeAction::Send { request } ==> action@ == (RevokeActionView::Send {
            request: request@,
        }),
        action matches RevokeAction::Finish { result: Ok(_) } ==> action@ == (
        RevokeActionView::Finish { result: Ok(()) }),
        action matches RevokeAction::Finish { result: Err(error) } ==> action@ == (
        RevokeActionView::Finish { result: Err(error@) }),
{
}

/// The contracts speak of an event by its kind and all that it holds.
pub proof fn law_revoke_event_is_viewed_whole(event: RevokeEvent)
    ensures
        event matches RevokeEvent::TokenObtained { token } ==> event@ == (
        RevokeEventView::TokenObtained { token: token@ }),
        event matches RevokeEvent::TokenRefused { error } ==> event@ == (
        RevokeEventView::TokenRefused { error: error@ }),
        event matches RevokeEvent::SendFailed { reason } ==> event@ == (
        RevokeEventView::SendFailed { reason: reason@ }),
        event matches RevokeEvent::Replied { status } ==> event@ == (
        RevokeEventView::Replied { status }),
        event matches RevokeEvent::TextRead { text } ==> event@ == (
        RevokeEventView::TextRead { text: text@ }),
{
}

} // verus!
