//! Requests to Vault, and the status of its replies.

use crate::text::decimal;
use vstd::prelude::*;

verus! {

/// The range of HTTP status codes.
pub open spec fn http_status(status: u16) -> bool {
    100 <= status <= 999
}

/// The reason phrase that the HTTP library prints after a status code.
pub uninterp spec fn reason_phrase(status: u16) -> Seq<char>;

/// A status code as it is printed: the number and the reason phrase.
pub open spec fn status_line(status: u16) -> Seq<char> {
    decimal(status as nat) + " "@ + reason_phrase(status)
}

/// Prints a status code with the `Display` of `reqwest::StatusCode`, which
/// `StatusCode::from_u16` makes of every number from 100 to 999. Claimed is that
/// the text is the number in decimal, a space, and a phrase that depends on the
/// number alone.
#[verifier::external_body]
pub(crate) fn status_text(status: u16) -> (text: String)
    requires
        http_status(status),
    ensures
        text@ == decimal(status as nat) + " "@ + reason_phrase(status),
{
    reqwest::StatusCode::from_u16(status).unwrap().to_string()
}

/// A status that reports success.
pub open spec fn success(status: u16) -> bool {
    200 <= status < 300
}

/// Whether a status reports success.
pub(crate) fn is_success(status: u16) -> (res: bool)
    ensures
        res == success(status),
{
    200 <= status && status < 300
}

/// The status of a request whose token is not, or no longer, good.
pub const UNAUTHORIZED: u16 = 401;

/// The HTTP methods that the plugin uses.
#[derive(Debug, Clone, Copy, PartialEq, Eq, Structural)]
pub enum Method {
    Post,
    Put,
}

/// One request to Vault.
#[derive(Debug)]
pub struct VaultRequest {
    pub method: Method,
    pub url: String,
    /// Names and values.
    pub headers: Vec<(String, String)>,
    /// The members of the JSON object to send, if there is a body.
    pub body: Option<Vec<(String, String)>>,
}

/// What the contracts speak of for a [`VaultRequest`].
pub struct RequestView {
    pub method: Method,
    pub url: Seq<char>,
    pub headers: Seq<(Seq<char>, Seq<char>)>,
    pub body: Option<Seq<(Seq<char>, Seq<char>)>>,
}

/// Pairs of strings by what they hold.
pub open spec fn pairs_of(pairs: Seq<(String, String)>) -> Seq<(Seq<char>, Seq<char>)> {
    pairs.map_values(|pair: (String, String)| (pair.0@, pair.1@))
}

impl View for VaultRequest {
    type V = RequestView;

    open spec fn view(&self) -> RequestView {
        RequestView {
            method: self.method,
            url: self.url@,
            headers: pairs_of(self.headers@),
            body: match self.body {
                Some(members) => Some(pairs_of(members@)),
                None => None,
            },
        }
    }
}

/// The statuses that report success are those in the two hundreds.
pub proof fn law_success(status: u16)
    ensures
        success(status) <==> status / 100 == 2,
{
}

/// A printed status is its number, a space and its phrase.
pub proof fn law_status_line(status: u16)
    ensures
        ({
            let n = decimal(status as nat).len() as int;
            &&& n < status_line(status).len()
            &&& status_line(status).take(n) == decimal(status as nat)
            &&& status_line(status)[n] == ' '
            &&& status_line(status).skip(n + 1) == reason_phrase(status)
        }),
{
    reveal_strlit(" ");
    let n = decimal(status as nat).len() as int;
    assert(status_line(status).take(n) =~= decimal(status as nat));
    assert(status_line(status).skip(n + 1) =~= reason_phrase(status));
}

/// The contracts speak of all of a request: its method, its URL, and each header
/// and each member of its body as they stand.
pub proof fn law_request_is_viewed_whole(request: VaultRequest, i: int)
    ensures
        request@.method == request.method,
        request@.url == request.url@,
        request@.headers.len() == request.headers@.len(),
        0 <= i < request.headers@.len() ==> request@.headers[i] == (
            request.headers@[i].0@,
            request.headers@[i].1@,
        ),
        request.body is None <==> request@.body is None,
        request.body matches Some(members) ==> {
            &&& request@.body->0.len() == members@.len()
            &&& 0 <= i < members@.len() ==> request@.body->0[i] == (
                members@[i].0@,
                members@[i].1@,
            )
        },
{
}

} // verus!
