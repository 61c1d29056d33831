//! What the plugin hands to its host: a credential, or the reason for none.

use crate::string_map::StringMap;
use crate::text::all_digits;
use vstd::prelude::*;

verus! {

/// Why no credential was issued, or why a lease was not revoked.
#[derive(Debug)]
pub enum CredentialError {
    /// The caller may not have the credential.
    NotAuthorized { reason: String },
    /// The request cannot be served as things are configured.
    Misconfigured { reason: String },
    /// Vault asks for fewer requests.
    Throttled { reason: String },
    /// Vault could not be reached or did not do its part.
    Backend { reason: String },
}

/// What the contracts speak of for a [`CredentialError`].
pub enum CredentialErrorView {
    NotAuthorized { reason: Seq<char> },
    Misconfigured { reason: Seq<char> },
    Throttled { reason: Seq<char> },
    Backend { reason: Seq<char> },
}

impl View for CredentialError {
    type V = CredentialErrorView;

    open spec fn view(&self) -> CredentialErrorView {
        match *self {
            CredentialError::NotAuthorized { reason } => CredentialErrorView::NotAuthorized {
                reason: reason@,
            },
            CredentialError::Misconfigured { reason } => CredentialErrorView::Misconfigured {
                reason: reason@,
            },
            CredentialError::Throttled { reason } => CredentialErrorView::Throttled {
                reason: reason@,
            },
            CredentialError::Backend { reason } => CredentialErrorView::Backend { reason: reason@ },
        }
    }
}

/// A credential as the host takes it.
#[derive(Debug)]
pub struct IssuedCredential {
    /// A credential of a single value; a database credential has parts instead.
    pub value: Option<String>,
    /// The parts by name.
    pub parts: StringMap<String>,
    /// How long the host may cache the credential.
    pub ttl_seconds: u64,
    /// What to revoke once the credential is dropped.
    pub lease_id: Option<String>,
    /// When it was issued, in RFC 3339.
    pub issued_at: String,
    /// Where it came from.
    pub metadata: StringMap<String>,
}

/// What the contracts speak of for an [`IssuedCredential`].
pub struct IssuedCredentialView {
    pub value: Option<Seq<char>>,
    pub parts: Map<Seq<char>, Seq<char>>,
    pub ttl_seconds: u64,
    pub lease_id: Option<Seq<char>>,
    pub issued_at: Seq<char>,
    pub metadata: Map<Seq<char>, Seq<char>>,
}

impl View for IssuedCredential {
    type V = IssuedCredentialView;

    open spec fn view(&self) -> IssuedCredentialView {
        IssuedCredentialView {
            value: self.value.deep_view(),
            parts: self.parts@.map_values(|value: String| value@),
            ttl_seconds: self.ttl_seconds,
            lease_id: self.lease_id.deep_view(),
            issued_at: self.issued_at@,
            metadata: self.metadata@.map_values(|value: String| value@),
        }
    }
}

/// The number that two digits at place `i` of `s` stand for.
pub open spec fn two_digits(s: Seq<char>, i: int) -> int {
    (s[i] as int - '0' as int) * 10 + (s[i + 1] as int - '0' as int)
}

/// Two digits at place `i` of `s`, for a number from `low` to `high`.
pub open spec fn two_digits_within(s: Seq<char>, i: int, low: int, high: int) -> bool {
    '0' <= s[i] <= '9' && '0' <= s[i + 1] <= '9' && low <= two_digits(s, i) <= high
}

/// The year of a timestamp from 1970 on: four digits, or a plus sign and more
/// than four.
pub open spec fn timestamp_year(s: Seq<char>) -> bool {
    if s.len() == 4 {
        all_digits(s)
    } else {
        s.len() > 5 && s[0] == '+' && all_digits(s.skip(1))
    }
}

/// A time in UTC to the second, in the form of RFC 3339: a year, and then
/// `-MM-DDThh:mm:ssZ`.
pub open spec fn utc_timestamp(s: Seq<char>) -> bool {
    let n = s.len() as int;
    &&& n >= 20
    &&& timestamp_year(s.take(n - 16))
    &&& s[n - 16] == '-'
    &&& two_digits_within(s, n - 15, 1, 12)
    &&& s[n - 13] == '-'
    &&& two_digits_within(s, n - 12, 1, 31)
    &&& s[n - 10] == 'T'
    &&& two_digits_within(s, n - 9, 0, 23)
    &&& s[n - 7] == ':'
    &&& two_digits_within(s, n - 6, 0, 59)
    &&& s[n - 4] == ':'
    &&& two_digits_within(s, n - 3, 0, 59)
    &&& s[n - 1] == 'Z'
}

/// The time now, from `chrono::Utc::now` and `DateTime::to_rfc3339_opts` with
/// whole seconds and a `Z` for the offset. Claimed is the form of the text, for
/// every reading of the clock that `Utc::now` takes: it panics on one before
/// 1970 or past the years that chrono can hold. Which time it is depends on the
/// machine and is left unsaid.
#[verifier::external_body]
pub(crate) fn now_rfc3339() -> (text: String)
    ensures
        utc_timestamp(text@),
{
    chrono::Utc::now().to_rfc3339_opts(chrono::SecondsFormat::Secs, true)
}

/// The contracts speak of all of a credential.
pub proof fn law_credential_is_viewed_whole(credential: IssuedCredential, key: Seq<char>)
    ensures
        credential@.value is Some <==> credential.value is Some,
        credential.value matches Some(value) ==> credential@.value == Some(value@),
        credential@.parts.contains_key(key) <==> credential.parts@.contains_key(key),
        credential.parts@.contains_key(key) ==> credential@.parts[key]
            == credential.parts@[key]@,
        credential@.ttl_seconds == credential.ttl_seconds,
        credential@.lease_id is Some <==> credential.lease_id is Some,
        credential.lease_id matches Some(lease_id) ==> credential@.lease_id == Some(lease_id@),
        credential@.issued_at == credential.issued_at@,
        credential@.metadata.contains_key(key) <==> credential.metadata@.contains_key(key),
        credential.metadata@.contains_key(key) ==> credential@.metadata[key]
            == credential.metadata@[key]@,
{
}

/// The contracts speak of an error by its class and all of its reason.
pub proof fn law_error_is_viewed_whole(error: CredentialError)
    ensures
        error matches CredentialError::NotAuthorized { reason } ==> error@ == (
        CredentialErrorView::NotAuthorized { reason: reason@ }),
        error matches CredentialError::Misconfigured { reason } ==> error@ == (
        CredentialErrorView::Misconfigured { reason: reason@ }),
        error matches CredentialError::Throttled { reason } ==> error@ == (
        CredentialErrorView::Throttled { reason: reason@ }),
        error matches CredentialError::Backend { reason } ==> error@ == (
        CredentialErrorView::Backend { reason: reason@ }),
{
}

} // verus!
