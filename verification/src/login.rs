//! The AppRole login, step by step.

use crate::client::{token_step, AuthState, AuthStateView, ClientView, TokenStepView};
use crate::credential::{CredentialError, CredentialErrorView};
use crate::http::{http_status, is_success, status_line, status_text, success};
use crate::text::{preview, preview_of};
use vstd::pervasive::unreached;
use vstd::prelude::*;

verus! {

/// How far a login has come.
#[derive(Debug, Clone, Copy, PartialEq, Eq, Structural)]
pub enum LoginPhase {
    /// The request is out.
    Sent,
    /// Vault granted the login; its token is being read.
    ReadingToken,
    /// Vault refused with this status; its words are being read.
    ReadingRefusal { status: u16 },
    /// Nothing is left to do.
    Done,
}

/// What can come of a login.
#[derive(Debug)]
pub enum LoginEvent {
    /// The request did not get through.
    SendFailed { reason: String },
    /// A reply with this status.
    Replied { status: u16 },
    /// The token in the reply.
    TokenRead { token: String },
    /// The reply holds no token that can be read.
    TokenUnreadable { reason: String },
    /// The text of the reply.
    TextRead { text: String },
}

/// What the contracts speak of for a [`LoginEvent`].
pub enum LoginEventView {
    SendFailed { reason: Seq<char> },
    Replied { status: u16 },
    TokenRead { token: Seq<char> },
    TokenUnreadable { reason: Seq<char> },
    TextRead { text: Seq<char> },
}

impl View for LoginEvent {
    type V = LoginEventView;

    open spec fn view(&self) -> LoginEventView {
        match *self {
            LoginEvent::SendFailed { reason } => LoginEventView::SendFailed { reason: reason@ },
            LoginEvent::Replied { status } => LoginEventView::Replied { status },
            LoginEvent::TokenRead { token } => LoginEventView::TokenRead { token: token@ },
            LoginEvent::TokenUnreadable { reason } => LoginEventView::TokenUnreadable {
                reason: reason@,
            },
            LoginEvent::TextRead { text } => LoginEventView::TextRead { text: text@ },
        }
    }
}

/// What the caller is to do next in a login.
#[derive(Debug)]
pub enum LoginAction {
    /// Read the token out of the reply.
    ReadToken,
    /// Read the reply's text.
    ReadText,
    /// The login is over: here is the token, or why there is none.
    Finish { result: Result<String, CredentialError> },
}

/// What the contracts speak of for a [`LoginAction`].
pub enum LoginActionView {
    ReadToken,
    ReadText,
    Finish { result: Result<Seq<char>, CredentialErrorView> },
}

impl View for LoginAction {
    type V = LoginActionView;

    open spec fn view(&self) -> LoginActionView {
        match *self {
            LoginAction::ReadToken => LoginActionView::ReadToken,
            LoginAction::ReadText => LoginActionView::ReadText,
            LoginAction::Finish { result } => LoginActionView::Finish {
                result: match result {
                    Ok(token) => Ok(token@),
                    Err(error) => Err(error@),
                },
            },
        }
    }
}

/// The events that can come in a phase of a login.
pub open spec fn login_expects(phase: LoginPhase, event: LoginEventView) -> bool {
    match phase {
        LoginPhase::Sent => match event {
            LoginEventView::SendFailed { .. } => true,
            LoginEventView::Replied { status } => http_status(status),
            _ => false,
        },
        LoginPhase::ReadingToken => event is TokenRead || event is TokenUnreadable,
        LoginPhase::ReadingRefusal { status } => http_status(status) && event is TextRead,
        LoginPhase::Done => false,
    }
}

/// What an event in a login leads to: the next phase, the token cache, and what
/// to do. A token that was read is cached.
pub open spec fn login_step(
    phase: LoginPhase,
    state: AuthStateView,
    event: LoginEventView,
) -> (LoginPhase, AuthStateView, LoginActionView) {
    match event {
        LoginEventView::SendFailed { reason } => (
            LoginPhase::Done,
            state,
            LoginActionView::Finish {
                result: Err(
                    CredentialErrorView::Backend { reason: "approle login: "@ + reason },
                ),
            },
        ),
        LoginEventView::Replied { status } => if success(status) {
            (LoginPhase::ReadingToken, state, LoginActionView::ReadToken)
        } else {
            (LoginPhase::ReadingRefusal { status }, state, LoginActionView::ReadText)
        },
        LoginEventView::TokenRead { token } => (
            LoginPhase::Done,
            AuthStateView { config: state.config, token: Some(token) },
            LoginActionView::Finish { result: Ok(token) },
        ),
        LoginEventView::TokenUnreadable { reason } => (
            LoginPhase::Done,
            state,
            LoginActionView::Finish {
                result: Err(
                    CredentialErrorView::Backend { reason: "approle login json: "@ + reason },
                ),
            },
        ),
        LoginEventView::TextRead { text } => (
            LoginPhase::Done,
            state,
            LoginActionView::Finish {
                result: Err(
                    CredentialErrorView::NotAuthorized {
                        reason: "approle login failed ("@ + status_line(
                            phase->ReadingRefusal_status,
                        ) + "): "@ + preview_of(text),
                    },
                ),
            },
        ),
    }
}

/// A login that is under way.
#[derive(Debug)]
pub struct LoginCall {
    pub phase: LoginPhase,
}

impl LoginCall {
    /// A login whose request has just been sent.
    pub fn sent() -> (call: Self)
        ensures
            call.phase == LoginPhase::Sent,
    {
        LoginCall { phase: LoginPhase::Sent }
    }

    /// Takes what has come of the last action and says what to do next.
    pub fn step(&mut self, state: &mut AuthState, event: LoginEvent) -> (action: LoginAction)
        requires
            login_expects(old(self).phase, event@),
        ensures
            (final(self).phase, final(state)@, action@) == login_step(
                old(self).phase,
                old(state)@,
                event@,
            ),
    {
        match event {
            LoginEvent::SendFailed { reason } => {
                self.phase = LoginPhase::Done;
                let mut words = "approle login: ".to_owned();
                words.append(reason.as_str());
                LoginAction::Finish { result: Err(CredentialError::Backend { reason: words }) }
            },
            LoginEvent::Replied { status } => {
                if is_success(status) {
                    self.phase = LoginPhase::ReadingToken;
                    LoginAction::ReadToken
                } else {
                    self.phase = LoginPhase::ReadingRefusal { status };
                    LoginAction::ReadText
                }
            },
            LoginEvent::TokenRead { token } => {
                self.phase = LoginPhase::Done;
                state.token = Some(token.clone());
                LoginAction::Finish { result: Ok(token) }
            },
            LoginEvent::TokenUnreadable { reason } => {
                self.phase = LoginPhase::Done;
                let mut words = "approle login json: ".to_owned();
                words.append(reason.as_str());
                LoginAction::Finish { result: Err(CredentialError::Backend { reason: words }) }
            },
            LoginEvent::TextRead { text } => {
                let status: u16 = match self.phase {
                    LoginPhase::ReadingRefusal { status } => status,
                    _ => unreached(),
                };
                let mut words = "approle login failed (".to_owned();
                words.append(status_text(status).as_str());
                words.append("): ");
                words.append(preview(text.as_str()).as_str());
                self.phase = LoginPhase::Done;
                LoginAction::Finish {
                    result: Err(CredentialError::NotAuthorized { reason: words }),
                }
            },
        }
    }
}

/// A token that was had is kept: asking again gives the same one and changes
/// nothing. That holds of a token that a login gave, too.
pub proof fn law_token_is_cached(client: ClientView, state: AuthStateView, token: Seq<char>)
    ensures
        token_step(client, state).1 matches TokenStepView::Ready { token: first } ==> token_step(
            client,
            token_step(client, state).0,
        ) == (token_step(client, state).0, TokenStepView::Ready { token: first }),
        ({
            let (phase, after, action) = login_step(
                LoginPhase::ReadingToken,
                state,
                LoginEventView::TokenRead { token },
            );
            action == (LoginActionView::Finish { result: Ok(token) }) && token_step(client, after)
                == (after, TokenStepView::Ready { token })
        }),
{
}

/// A login ends in two steps, gives a token only when one was read from a
/// successful reply, and leaves the cache alone otherwise.
pub proof fn law_login(phase: LoginPhase, state: AuthStateView, event: LoginEventView)
    requires
        login_expects(phase, event),
    ensures
        ({
            let (after, cache, action) = login_step(phase, state, event);
            &&& after == LoginPhase::Done <==> action is Finish
            &&& after == LoginPhase::Done || phase == LoginPhase::Sent
            &&& after != LoginPhase::Sent
            &&& after == LoginPhase::ReadingToken <==> (event matches LoginEventView::Replied {
                status,
            } && success(status))
            &&& event is TokenRead ==> action == (LoginActionView::Finish {
                result: Ok(event->token),
            }) && cache.token == Some(event->token)
            &&& !(event is TokenRead) ==> cache == state && (action matches
                LoginActionView::Finish { result } ==> result is Err)
            &&& cache.config == state.config
        }),
{
}

/// What a login comes to, event by event. A failure says in its words where it
/// lies and why; a refusal by Vault, with its status and the beginning of its
/// text, means that the plugin is not authorized; a token that was read is the
/// result.
pub proof fn law_login_outcomes(
    phase: LoginPhase,
    state: AuthStateView,
    status: u16,
    words: Seq<char>,
)
    ensures
        login_step(phase, state, LoginEventView::SendFailed { reason: words }).2 == (
        LoginActionView::Finish {
            result: Err(CredentialErrorView::Backend { reason: "approle login: "@ + words }),
        }),
        login_step(phase, state, LoginEventView::TokenUnreadable { reason: words }).2 == (
        LoginActionView::Finish {
            result: Err(CredentialErrorView::Backend { reason: "approle login json: "@ + words }),
        }),
        login_step(phase, state, LoginEventView::TokenRead { token: words }).2 == (
        LoginActionView::Finish { result: Ok(words) }),
        login_step(phase, state, LoginEventView::TokenRead { token: words }).1.token == Some(words),
        login_step(
            LoginPhase::ReadingRefusal { status },
            state,
            LoginEventView::TextRead { text: words },
        ).2 == (LoginActionView::Finish {
            result: Err(
                CredentialErrorView::NotAuthorized {
                    reason: "approle login failed ("@ + status_line(status) + "): "@ + preview_of(
                        words,
                    ),
                },
            ),
        }),
        status / 100 == 2 ==> login_step(phase, state, LoginEventView::Replied { status }) == (
            LoginPhase::ReadingToken,
            state,
            LoginActionView::ReadToken,
        ),
        status / 100 != 2 ==> login_step(phase, state, LoginEventView::Replied { status }) == (
            LoginPhase::ReadingRefusal { status },
            state,
            LoginActionView::ReadText,
        ),
{
}

/// Whoever does what a login says can hand in every outcome of it: after the
/// request any reply or none, after that the token or none, or the text.
pub proof fn law_login_takes_every_outcome(
    phase: LoginPhase,
    state: AuthStateView,
    event: LoginEventView,
    status: u16,
    words: Seq<char>,
)
    requires
        login_expects(phase, event),
    ensures
        login_expects(LoginPhase::Sent, LoginEventView::SendFailed { reason: words }),
        100 <= status <= 999 ==> login_expects(
            LoginPhase::Sent,
            LoginEventView::Replied { status },
        ),
        ({
            let (next, cache, action) = login_step(phase, state, event);
            &&& action is ReadToken ==> login_expects(
                next,
                LoginEventView::TokenRead { token: words },
            ) && login_expects(next, LoginEventView::TokenUnreadable { reason: words })
            &&& action is ReadText ==> login_expects(
                next,
                LoginEventView::TextRead { text: words },
            )
        }),
{
}

/// The contracts speak of an action by its kind and all that it holds.
pub proof fn law_login_action_is_viewed_whole(action: LoginAction)
    ensures
        action is ReadToken <==> action@ is ReadToken,
        action is ReadText <==> action@ is ReadText,
        action matches LoginAction::Finish { result: Ok(value) } ==> action@ == (
        LoginActionView::Finish { result: Ok(value@) }),
        action matches LoginAction::Finish { result: Err(error) } ==> action@ == (
        LoginActionView::Finish { result: Err(error@) }),
{
}

/// The contracts speak of an event by its kind and all that it holds.
pub proof fn law_login_event_is_viewed_whole(event: LoginEvent)
    ensures
        event matches LoginEvent::SendFailed { reason } ==> event@ == (
        LoginEventView::SendFailed { reason: reason@ }),
        event matches LoginEvent::Replied { status } ==> event@ == (
        LoginEventView::Replied { status }),
        event matches LoginEvent::TokenRead { token } ==> event@ == (
        LoginEventView::TokenRead { token: token@ }),
        event matches LoginEvent::TokenUnreadable { reason } ==> event@ == (
        LoginEventView::TokenUnreadable { reason: reason@ }),
        event matches LoginEvent::TextRead { text } ==> event@ == (
        LoginEventView::TextRead { text: text@ }),
{
}

} // verus!
