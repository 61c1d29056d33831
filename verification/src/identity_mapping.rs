//! From a caller's identity to a Vault role.

use crate::config::{target_valid, IdentityMapping, TargetConfig, TargetView};
use crate::string_map::StringMap;
use crate::text::{
    chars_of, decimal, index_value, law_decimal_reads_back, parse_index, same_text, string_of,
    strip_prefix, unsigned_digits,
};
use vstd::prelude::*;

verus! {

/// The characters that a Vault role name may hold.
pub open spec fn role_char(c: char) -> bool {
    ||| 'A' <= c <= 'Z'
    ||| 'a' <= c <= 'z'
    ||| '0' <= c <= '9'
    ||| c == '_'
    ||| c == '-'
}

/// The most characters that a Vault role name may have.
pub const MAX_ROLE_CHARS: usize = 128;

/// A role name that can stand as one segment of a Vault API path: one to
/// [`MAX_ROLE_CHARS`] letters, digits, underscores and hyphens.
pub open spec fn valid_role_name(role: Seq<char>) -> bool {
    &&& 0 < role.len() <= MAX_ROLE_CHARS
    &&& forall|i: int| 0 <= i < role.len() ==> role_char(#[trigger] role[i])
}

/// Whether `role` can stand as one segment of a Vault API path. The role goes
/// straight into `/v1/<db_mount>/creds/<role>`, so a separator in it would
/// reach another path.
pub fn is_valid_role_name(role: &str) -> (res: bool)
    ensures
        res == valid_role_name(role@),
{
    let name = chars_of(role);
    if name.len() == 0 || name.len() > MAX_ROLE_CHARS {
        return false;
    }
    let mut i: usize = 0;
    while i < name.len()
        invariant
            i <= name@.len(),
            name@ == role@,
            forall|j: int| 0 <= j < i ==> role_char(#[trigger] role@[j]),
        decreases name@.len() - i,
    {
        let c = name[i];
        let allowed = ('A' <= c && c <= 'Z') || ('a' <= c && c <= 'z') || ('0' <= c && c <= '9')
            || c == '_' || c == '-';
        if !allowed {
            assert(!role_char(role@[i as int]));
            return false;
        }
        i = i + 1;
    }
    true
}

/// Who is calling.
#[derive(Debug, Clone)]
pub struct PluginIdentity {
    pub kind: String,
    /// How far the identity is trusted; `verified` if it was authenticated.
    pub trust_level: String,
    pub subject_id: Option<String>,
    pub auth_provider: Option<String>,
    pub issuer: Option<String>,
    pub roles: Vec<String>,
    pub groups: Vec<String>,
    pub scopes: Vec<String>,
    pub attributes: StringMap<String>,
}

/// What the contracts speak of for a [`PluginIdentity`].
pub struct IdentityView {
    pub kind: Seq<char>,
    pub trust_level: Seq<char>,
    pub subject_id: Option<Seq<char>>,
    pub auth_provider: Option<Seq<char>>,
    pub issuer: Option<Seq<char>>,
    pub roles: Seq<Seq<char>>,
    pub groups: Seq<Seq<char>>,
    pub scopes: Seq<Seq<char>>,
    pub attributes: Map<Seq<char>, Seq<char>>,
}

impl View for PluginIdentity {
    type V = IdentityView;

    open spec fn view(&self) -> IdentityView {
        IdentityView {
            kind: self.kind@,
            trust_level: self.trust_level@,
            subject_id: self.subject_id.deep_view(),
            auth_provider: self.auth_provider.deep_view(),
            issuer: self.issuer.deep_view(),
            roles: self.roles.deep_view(),
            groups: self.groups.deep_view(),
            scopes: self.scopes.deep_view(),
            attributes: self.attributes@.map_values(|value: String| value@),
        }
    }
}

/// What the mapping makes of an identity.
#[derive(Debug)]
pub enum Resolution {
    /// Use this role. `identity_derived` tells whether it came from the caller's
    /// identity rather than from the operator's `vault_role`.
    Role { role: String, identity_derived: bool },
    /// The identity gave nothing, and there is no `vault_role` to fall back to.
    EmptyDerived { reason: String },
    /// The template refers to a field that the identity does not have.
    SubstitutionFailed { field: String },
}

/// What the contracts speak of for a [`Resolution`].
pub enum ResolutionView {
    Role { role: Seq<char>, identity_derived: bool },
    EmptyDerived { reason: Seq<char> },
    SubstitutionFailed { field: Seq<char> },
}

impl View for Resolution {
    type V = ResolutionView;

    open spec fn view(&self) -> ResolutionView {
        match *self {
            Resolution::Role { role, identity_derived } => ResolutionView::Role {
                role: role@,
                identity_derived,
            },
            Resolution::EmptyDerived { reason } => ResolutionView::EmptyDerived { reason: reason@ },
            Resolution::SubstitutionFailed { field } => ResolutionView::SubstitutionFailed {
                field: field@,
            },
        }
    }
}

/// The index in a field of the form `<name>[<index>]`.
pub open spec fn indexed(field: Seq<char>, name: Seq<char>) -> Option<usize> {
    let prefix = name + "["@;
    let rest = field.skip(prefix.len() as int);
    if prefix.is_prefix_of(field) && rest.len() > 0 && rest.last() == ']' {
        index_value(rest.drop_last())
    } else {
        None
    }
}

/// Reads `<name>[<index>]`: the index, if `field` has that form.
pub fn parse_indexed(field: &str, name: &str) -> (res: Option<usize>)
    ensures
        res == indexed(field@, name@),
{
    let mut prefix = name.to_owned();
    prefix.append("[");
    match strip_prefix(field, prefix.as_str()) {
        Some(rest) => {
            let chars = chars_of(rest.as_str());
            if chars.len() > 0 && chars[chars.len() - 1] == ']' {
                let inner = string_of(&chars, 0, chars.len() - 1);
                assert(inner@ =~= rest@.drop_last());
                parse_index(inner.as_str())
            } else {
                None
            }
        },
        None => None,
    }
}

/// The entry of `list` at `index`, if there is one.
pub open spec fn entry_at(list: Seq<Seq<char>>, index: usize) -> Option<Seq<char>> {
    if index < list.len() {
        Some(list[index as int])
    } else {
        None
    }
}

/// The value that a template field has in an identity, if it has one.
pub open spec fn field_value(field: Seq<char>, identity: IdentityView) -> Option<Seq<char>> {
    if field == "subject_id"@ {
        identity.subject_id
    } else if field == "kind"@ {
        Some(identity.kind)
    } else if field == "trust_level"@ {
        Some(identity.trust_level)
    } else if field == "auth_provider"@ {
        identity.auth_provider
    } else if "attributes."@.is_prefix_of(field) {
        let key = field.skip("attributes."@.len() as int);
        if identity.attributes.contains_key(key) {
            Some(identity.attributes[key])
        } else {
            None
        }
    } else if indexed(field, "roles"@) is Some {
        entry_at(identity.roles, indexed(field, "roles"@)->0)
    } else if indexed(field, "groups"@) is Some {
        entry_at(identity.groups, indexed(field, "groups"@)->0)
    } else if indexed(field, "scopes"@) is Some {
        entry_at(identity.scopes, indexed(field, "scopes"@)->0)
    } else {
        None
    }
}

/// A copy of the entry of `list` at `index`, if there is one.
fn copy_at(list: &Vec<String>, index: usize) -> (res: Option<String>)
    ensures
        res.deep_view() == entry_at(list.deep_view(), index),
{
    if index < list.len() {
        Some(list[index].clone())
    } else {
        None
    }
}

/// Looks a template field up in the identity.
pub fn resolve_field(field: &str, identity: &PluginIdentity) -> (res: Option<String>)
    ensures
        res.deep_view() == field_value(field@, identity@),
{
    if same_text(field, "subject_id") {
        return identity.subject_id.clone();
    }
    if same_text(field, "kind") {
        return Some(identity.kind.clone());
    }
    if same_text(field, "trust_level") {
        return Some(identity.trust_level.clone());
    }
    if same_text(field, "auth_provider") {
        return identity.auth_provider.clone();
    }
    if let Some(key) = strip_prefix(field, "attributes.") {
        return match identity.attributes.get(key.as_str()) {
            Some(value) => Some(value.clone()),
            None => None,
        };
    }
    if let Some(index) = parse_indexed(field, "roles") {
        return copy_at(&identity.roles, index);
    }
    if let Some(index) = parse_indexed(field, "groups") {
        return copy_at(&identity.groups, index);
    }
    if let Some(index) = parse_indexed(field, "scopes") {
        return copy_at(&identity.scopes, index);
    }
    None
}

/// What a template comes to: its text, or the first placeholder that fails.
pub enum Expansion {
    Text(Seq<char>),
    Failed(Seq<char>),
}

/// Puts `text` before an expansion.
pub open spec fn prepend(text: Seq<char>, expansion: Expansion) -> Expansion {
    match expansion {
        Expansion::Text(rest) => Expansion::Text(text + rest),
        Expansion::Failed(field) => Expansion::Failed(field),
    }
}

/// How many characters of `s` stand before the first `c`; all of them if there
/// is none.
pub open spec fn count_before(s: Seq<char>, c: char) -> nat
    decreases s.len(),
{
    if s.len() == 0 || s[0] == c {
        0
    } else {
        1 + count_before(s.drop_first(), c)
    }
}

/// The field that a placeholder names: what follows `identity.`, if it begins
/// so.
pub open spec fn placeholder_field(placeholder: Seq<char>) -> Seq<char> {
    if "identity."@.is_prefix_of(placeholder) {
        placeholder.skip("identity."@.len() as int)
    } else {
        placeholder
    }
}

/// A template that begins with a placeholder's `${`.
pub open spec fn opens_placeholder(template: Seq<char>) -> bool {
    template.len() >= 2 && template[0] == '$' && template[1] == '{'
}

/// What a template comes to for an identity. A placeholder reaches from `${` to
/// the next `}` and stands for its field's value, which must not be empty.
/// Every other character stands for itself.
pub open spec fn expand(template: Seq<char>, identity: IdentityView) -> Expansion
    decreases template.len(),
{
    if template.len() == 0 {
        Expansion::Text(Seq::empty())
    } else if opens_placeholder(template) {
        let rest = template.skip(2);
        let end = count_before(rest, '}') as int;
        if end >= rest.len() {
            Expansion::Failed("unterminated placeholder `${"@ + rest + "`"@)
        } else {
            let field = placeholder_field(rest.take(end));
            match field_value(field, identity) {
                Some(value) => if value.len() > 0 {
                    prepend(value, expand(rest.skip(end + 1), identity))
                } else {
                    Expansion::Failed(field)
                },
                None => Expansion::Failed(field),
            }
        }
    } else {
        prepend(seq![template[0]], expand(template.drop_first(), identity))
    }
}

/// The resolution that an expansion gives by itself.
pub open spec fn expansion_resolution(expansion: Expansion) -> ResolutionView {
    match expansion {
        Expansion::Failed(field) => ResolutionView::SubstitutionFailed { field },
        Expansion::Text(text) => if text.len() == 0 {
            ResolutionView::EmptyDerived {
                reason: "template substitution produced empty role name"@,
            }
        } else {
            ResolutionView::Role { role: text, identity_derived: true }
        },
    }
}

proof fn lemma_count_before(s: Seq<char>, c: char, n: int)
    requires
        0 <= n <= s.len(),
        forall|i: int| 0 <= i < n ==> s[i] != c,
        n < s.len() ==> s[n] == c,
    ensures
        count_before(s, c) == n,
    decreases s.len(),
{
    if n > 0 {
        lemma_count_before(s.drop_first(), c, n - 1);
    }
}

proof fn lemma_prepend(a: Seq<char>, b: Seq<char>, expansion: Expansion)
    ensures
        prepend(a, prepend(b, expansion)) == prepend(a + b, expansion),
{
    match expansion {
        Expansion::Text(rest) => {
            assert(a + (b + rest) =~= (a + b) + rest);
        },
        Expansion::Failed(_) => {},
    }
}

/// Substitutes the identity's fields into a template.
pub fn substitute(template: &str, identity: &PluginIdentity) -> (res: Resolution)
    ensures
        res@ == expansion_resolution(expand(template@, identity@)),
{
    let text = chars_of(template);
    let mut out = String::new();
    let mut i: usize = 0;
    proof {
        assert(text@.skip(0) =~= text@);
        match expand(text@, identity@) {
            Expansion::Text(whole) => {
                assert(Seq::<char>::empty() + whole =~= whole);
            },
            Expansion::Failed(_) => {},
        }
    }
    while i < text.len()
        invariant
            i <= text@.len(),
            text@ == template@,
            expand(template@, identity@) == prepend(
                out@,
                expand(text@.skip(i as int), identity@),
            ),
        decreases text@.len() - i,
    {
        let ghost left = text@.skip(i as int);
        if text[i] == '$' && i + 1 < text.len() && text[i + 1] == '{' {
            let start: usize = i + 2;
            let ghost rest = left.skip(2);
            assert(opens_placeholder(left));
            assert(rest =~= text@.skip(start as int));
            let mut end: usize = start;
            while end < text.len() && text[end] != '}'
                invariant
                    start <= end <= text@.len(),
                    forall|j: int| start <= j < end ==> text@[j] != '}',
                decreases text@.len() - end,
            {
                end = end + 1;
            }
            let placeholder = string_of(&text, start, end);
            proof {
                lemma_count_before(rest, '}', end - start);
            }
            if end == text.len() {
                let mut field = "unterminated placeholder `${".to_owned();
                field.append(placeholder.as_str());
                field.append("`");
                assert(placeholder@ =~= rest);
                return Resolution::SubstitutionFailed { field };
            }
            assert(placeholder@ =~= rest.take(end - start));
            let field = match strip_prefix(placeholder.as_str(), "identity.") {
                Some(name) => name,
                None => placeholder,
            };
            match resolve_field(field.as_str(), identity) {
                Some(value) => {
                    if value.as_str().is_empty() {
                        return Resolution::SubstitutionFailed { field };
                    }
                    proof {
                        assert(rest.skip(end - start + 1) =~= text@.skip(end + 1));
                        lemma_prepend(out@, value@, expand(text@.skip(end + 1), identity@));
                    }
                    out.append(value.as_str());
                },
                None => {
                    return Resolution::SubstitutionFailed { field };
                },
            }
            i = end + 1;
        } else {
            proof {
                assert(!opens_placeholder(left));
                assert(left.drop_first() =~= text@.skip(i + 1));
                lemma_prepend(out@, seq![left[0]], expand(text@.skip(i + 1), identity@));
                assert(out@ + seq![left[0]] =~= out@.push(text@[i as int]));
            }
            out.push(text[i]);
            i = i + 1;
        }
    }
    assert(out@ + Seq::<char>::empty() =~= out@);
    if out.as_str().is_empty() {
        Resolution::EmptyDerived {
            reason: "template substitution produced empty role name".to_owned(),
        }
    } else {
        Resolution::Role { role: out, identity_derived: true }
    }
}

/// The operator's role, where the identity gives nothing; if there is none,
/// `reason` says what was missing.
pub open spec fn fallback(target: TargetView, reason: Seq<char>) -> ResolutionView {
    if target.vault_role.len() > 0 {
        ResolutionView::Role { role: target.vault_role, identity_derived: false }
    } else {
        ResolutionView::EmptyDerived { reason }
    }
}

/// The role that a target's mapping selects for an identity.
pub open spec fn resolution_of(identity: IdentityView, target: TargetView) -> ResolutionView {
    match target.identity_mapping {
        IdentityMapping::Static => ResolutionView::Role {
            role: target.vault_role,
            identity_derived: false,
        },
        IdentityMapping::SubjectId => if identity.subject_id is Some
            && identity.subject_id->0.len() > 0 {
            ResolutionView::Role { role: identity.subject_id->0, identity_derived: true }
        } else {
            fallback(target, "identity has no subject_id and no static fallback"@)
        },
        IdentityMapping::FromRole => if identity.roles.len() > 0 && identity.roles[0].len() > 0 {
            ResolutionView::Role { role: identity.roles[0], identity_derived: true }
        } else {
            fallback(target, "identity has no roles and no static fallback"@)
        },
        IdentityMapping::Template => {
            let template = match target.role_template {
                Some(template) => template,
                None => Seq::empty(),
            };
            match expansion_resolution(expand(template, identity)) {
                ResolutionView::EmptyDerived { reason } => fallback(target, reason),
                resolution => resolution,
            }
        },
    }
}

/// Falls back to the operator's role.
fn fall_back(target: &TargetConfig, reason: &str) -> (res: Resolution)
    ensures
        res@ == fallback(target@, reason@),
{
    if target.vault_role.as_str().is_empty() {
        Resolution::EmptyDerived { reason: reason.to_owned() }
    } else {
        Resolution::Role { role: target.vault_role.clone(), identity_derived: false }
    }
}

/// Selects the Vault role of `identity` for `target`.
pub fn resolve_role(identity: &PluginIdentity, target: &TargetConfig) -> (res: Resolution)
    ensures
        res@ == resolution_of(identity@, target@),
{
    match target.identity_mapping {
        IdentityMapping::Static => Resolution::Role {
            role: target.vault_role.clone(),
            identity_derived: false,
        },
        IdentityMapping::SubjectId => {
            if let Some(subject) = &identity.subject_id {
                if !subject.as_str().is_empty() {
                    return Resolution::Role { role: subject.clone(), identity_derived: true };
                }
            }
            fall_back(target, "identity has no subject_id and no static fallback")
        },
        IdentityMapping::FromRole => {
            if identity.roles.len() > 0 && !identity.roles[0].as_str().is_empty() {
                return Resolution::Role {
                    role: identity.roles[0].clone(),
                    identity_derived: true,
                };
            }
            fall_back(target, "identity has no roles and no static fallback")
        },
        IdentityMapping::Template => {
            let resolution = match &target.role_template {
                Some(template) => substitute(template.as_str(), identity),
                None => {
                    let empty = String::new();
                    substitute(empty.as_str(), identity)
                },
            };
            match resolution {
                Resolution::EmptyDerived { reason } => fall_back(target, reason.as_str()),
                resolution => resolution,
            }
        },
    }
}

/// A static mapping gives every caller the operator's role.
pub proof fn law_static_role_is_the_same_for_all(identity: IdentityView, target: TargetView)
    requires
        target.identity_mapping == IdentityMapping::Static,
    ensures
        resolution_of(identity, target) == (ResolutionView::Role {
            role: target.vault_role,
            identity_derived: false,
        }),
{
}

/// A role that is not marked as derived from the identity is the operator's
/// `vault_role`; one that is so marked is never empty, and never comes from a
/// static mapping.
pub proof fn law_only_marked_roles_are_derived(identity: IdentityView, target: TargetView)
    ensures
        match resolution_of(identity, target) {
            ResolutionView::Role { role, identity_derived } => if identity_derived {
                role.len() > 0 && target.identity_mapping != IdentityMapping::Static
            } else {
                role == target.vault_role
            },
            ResolutionView::EmptyDerived { .. } => target.vault_role.len() == 0
                && target.identity_mapping != IdentityMapping::Static,
            ResolutionView::SubstitutionFailed { .. } => target.identity_mapping
                == IdentityMapping::Template,
        },
{
}

/// A template in which no `${` opens a placeholder comes to itself, for every
/// identity.
pub proof fn law_plain_template_is_literal(template: Seq<char>, identity: IdentityView)
    requires
        forall|i: int|
            0 <= i < template.len() - 1 && #[trigger] template[i] == '$' ==> template[i + 1] != '{',
    ensures
        expand(template, identity) == Expansion::Text(template),
    decreases template.len(),
{
    if template.len() > 0 {
        let rest = template.drop_first();
        assert(!opens_placeholder(template));
        assert forall|i: int| 0 <= i < rest.len() - 1 && #[trigger] rest[i] == '$' implies rest[i
            + 1] != '{' by {
            assert(template[i + 1] == '$');
        }
        law_plain_template_is_literal(rest, identity);
        assert(seq![template[0]] + rest =~= template);
    } else {
        assert(template =~= Seq::empty());
    }
}

/// A template that is not empty never comes to an empty text.
pub proof fn law_expansion_is_not_empty(template: Seq<char>, identity: IdentityView)
    requires
        template.len() > 0,
    ensures
        expand(template, identity) matches Expansion::Text(text) ==> text.len() > 0,
{
}

/// With a target that passed validation the fallback of a template mapping is
/// never needed: the template gives a role or names the field that failed. A
/// static mapping always gives a role that is not empty.
pub proof fn law_valid_target_resolution(identity: IdentityView, target: TargetView)
    requires
        target_valid(target),
    ensures
        target.identity_mapping == IdentityMapping::Template ==> match resolution_of(
            identity,
            target,
        ) {
            ResolutionView::Role { role, identity_derived } => role.len() > 0 && identity_derived,
            ResolutionView::SubstitutionFailed { .. } => true,
            ResolutionView::EmptyDerived { .. } => false,
        },
        resolution_of(identity, target) matches ResolutionView::Role { role, .. } ==> role.len()
            > 0,
{
    if target.identity_mapping == IdentityMapping::Template {
        law_expansion_is_not_empty(target.role_template->0, identity);
    }
}

/// `${identity.<field>}` stands for the value of the field. Where the identity
/// has no such value, or an empty one, the whole template fails and names the
/// field.
pub proof fn law_placeholder(field: Seq<char>, rest: Seq<char>, identity: IdentityView)
    requires
        !field.contains('}'),
    ensures
        expand("${identity."@ + field + "}"@ + rest, identity) == match field_value(
            field,
            identity,
        ) {
            Some(value) => if value.len() > 0 {
                prepend(value, expand(rest, identity))
            } else {
                Expansion::Failed(field)
            },
            None => Expansion::Failed(field),
        },
{
    reveal_strlit("${identity.");
    reveal_strlit("identity.");
    reveal_strlit("}");
    let template = "${identity."@ + field + "}"@ + rest;
    assert(opens_placeholder(template));
    let tail = template.skip(2);
    let n = 9 + field.len() as int;
    assert forall|i: int| 0 <= i < n implies tail[i] != '}' by {
        if i < 9 {
            assert(tail[i] == "${identity."@[i + 2]);
        } else {
            assert(tail[i] == field[i - 9]);
            assert(field.contains(field[i - 9]));
        }
    }
    lemma_count_before(tail, '}', n);
    let placeholder = tail.take(n);
    assert(placeholder =~= "identity."@ + field);
    assert("identity."@.is_prefix_of(placeholder)) by {
        assert(placeholder.subrange(0, 9) =~= "identity."@);
    }
    assert(placeholder_field(placeholder) =~= field);
    assert(tail.skip(n + 1) =~= rest);
}

/// Where a template comes to a text, that text is followed by what an addition
/// to the template comes to, unless the two meet in a `${`.
pub proof fn law_template_concatenation(a: Seq<char>, b: Seq<char>, identity: IdentityView)
    requires
        !(a.len() > 0 && a.last() == '$' && b.len() > 0 && b[0] == '{'),
        expand(a, identity) is Text,
    ensures
        expand(a + b, identity) == prepend(expand(a, identity)->Text_0, expand(b, identity)),
    decreases a.len(),
{
    if a.len() == 0 {
        assert(a + b =~= b);
        match expand(b, identity) {
            Expansion::Text(text) => {
                assert(Seq::<char>::empty() + text =~= text);
            },
            Expansion::Failed(_) => {},
        }
    } else if opens_placeholder(a) {
        let rest = a.skip(2);
        let end = count_before(rest, '}') as int;
        lemma_count_before_extends(rest, b, '}');
        assert((a + b).skip(2) =~= rest + b);
        assert((rest + b).take(end) =~= rest.take(end));
        assert((rest + b).skip(end + 1) =~= rest.skip(end + 1) + b);
        let field = placeholder_field(rest.take(end));
        let value = field_value(field, identity)->0;
        let tail = rest.skip(end + 1);
        assert(tail.len() > 0 ==> tail.last() == a.last());
        law_template_concatenation(tail, b, identity);
        lemma_prepend(value, expand(tail, identity)->Text_0, expand(b, identity));
    } else {
        let tail = a.drop_first();
        assert((a + b).drop_first() =~= tail + b);
        assert(!opens_placeholder(a + b)) by {
            if a.len() == 1 && b.len() > 0 {
                assert((a + b)[1] == b[0]);
                assert(a.last() == a[0]);
            }
        }
        assert(tail.len() > 0 ==> tail.last() == a.last());
        law_template_concatenation(tail, b, identity);
        lemma_prepend(seq![a[0]], expand(tail, identity)->Text_0, expand(b, identity));
    }
}

/// A template in which every placeholder that is opened is closed.
pub open spec fn placeholders_closed(template: Seq<char>) -> bool
    decreases template.len(),
{
    if template.len() == 0 {
        true
    } else if opens_placeholder(template) {
        let rest = template.skip(2);
        let end = count_before(rest, '}') as int;
        end < rest.len() && placeholders_closed(rest.skip(end + 1))
    } else {
        placeholders_closed(template.drop_first())
    }
}

/// A field that fails a template fails it whatever is added after it: the first
/// placeholder without a value is the one that is named.
pub proof fn law_failed_field_is_kept(a: Seq<char>, b: Seq<char>, identity: IdentityView)
    requires
        placeholders_closed(a),
        expand(a, identity) is Failed,
    ensures
        expand(a + b, identity) == expand(a, identity),
    decreases a.len(),
{
    if opens_placeholder(a) {
        let rest = a.skip(2);
        let end = count_before(rest, '}') as int;
        lemma_count_before_extends(rest, b, '}');
        assert((a + b).skip(2) =~= rest + b);
        assert((rest + b).take(end) =~= rest.take(end));
        assert((rest + b).skip(end + 1) =~= rest.skip(end + 1) + b);
        if expand(rest.skip(end + 1), identity) is Failed {
            law_failed_field_is_kept(rest.skip(end + 1), b, identity);
        }
    } else if a.len() > 0 {
        let tail = a.drop_first();
        assert((a + b).drop_first() =~= tail + b);
        assert(tail.len() > 0) by {
            assert(expand(tail, identity) is Failed);
        }
        assert((a + b)[1] == a[1]);
        law_failed_field_is_kept(tail, b, identity);
    }
}

proof fn lemma_count_before_extends(s: Seq<char>, more: Seq<char>, c: char)
    ensures
        count_before(s, c) <= s.len(),
        count_before(s, c) < s.len() ==> count_before(s + more, c) == count_before(s, c),
    decreases s.len(),
{
    if s.len() > 0 && s[0] != c {
        assert((s + more).drop_first() =~= s.drop_first() + more);
        lemma_count_before_extends(s.drop_first(), more, c);
    }
}

/// `<name>[<n>]`, with the index in decimal, is read back as its index.
pub proof fn law_indexed_reads_back(name: Seq<char>, n: usize)
    ensures
        indexed(name + "["@ + decimal(n as nat) + "]"@, name) == Some(n),
{
    reveal_strlit("]");
    law_decimal_reads_back(n as nat);
    let digits = decimal(n as nat);
    let field = name + "["@ + digits + "]"@;
    let prefix = name + "["@;
    assert(field.subrange(0, prefix.len() as int) =~= prefix);
    let rest = field.skip(prefix.len() as int);
    assert(rest =~= digits + "]"@);
    assert(rest.drop_last() =~= digits);
    assert('0' <= digits[0] <= '9');
    assert(unsigned_digits(digits) == digits);
}

/// The fields that a template can name: the four plain ones, the lists by index
/// and the attributes by key.
pub proof fn law_fields(identity: IdentityView, n: usize, key: Seq<char>)
    ensures
        field_value("subject_id"@, identity) == identity.subject_id,
        field_value("kind"@, identity) == Some(identity.kind),
        field_value("trust_level"@, identity) == Some(identity.trust_level),
        field_value("auth_provider"@, identity) == identity.auth_provider,
        field_value("roles"@ + "["@ + decimal(n as nat) + "]"@, identity) == entry_at(
            identity.roles,
            n,
        ),
        field_value("groups"@ + "["@ + decimal(n as nat) + "]"@, identity) == entry_at(
            identity.groups,
            n,
        ),
        field_value("scopes"@ + "["@ + decimal(n as nat) + "]"@, identity) == entry_at(
            identity.scopes,
            n,
        ),
        field_value("attributes."@ + key, identity) == if identity.attributes.contains_key(key) {
            Some(identity.attributes[key])
        } else {
            None
        },
{
    reveal_strlit("subject_id");
    reveal_strlit("kind");
    reveal_strlit("trust_level");
    reveal_strlit("auth_provider");
    reveal_strlit("attributes.");
    reveal_strlit("roles");
    reveal_strlit("groups");
    reveal_strlit("scopes");
    reveal_strlit("[");
    law_indexed_reads_back("roles"@, n);
    law_indexed_reads_back("groups"@, n);
    law_indexed_reads_back("scopes"@, n);
    let roles = "roles"@ + "["@ + decimal(n as nat) + "]"@;
    let groups = "groups"@ + "["@ + decimal(n as nat) + "]"@;
    let scopes = "scopes"@ + "["@ + decimal(n as nat) + "]"@;
    let attribute = "attributes."@ + key;
    assert("kind"@[0] == 'k');
    assert("subject_id"@[0] == 's' && "subject_id"@[1] == 'u');
    assert("trust_level"@[0] == 't');
    assert("auth_provider"@[0] == 'a' && "auth_provider"@[1] == 'u');
    assert(roles[0] == 'r');
    assert(groups[0] == 'g');
    assert(scopes[0] == 's' && scopes[1] == 'c');
    assert(attribute[0] == 'a' && attribute[1] == 't');
    assert forall|field: Seq<char>| #[trigger] "attributes."@.is_prefix_of(field) implies field[0]
        == 'a' by {
        assert(field.subrange(0, 11)[0] == "attributes."@[0]);
    }
    lemma_prefix_first(roles, "groups"@, "scopes"@);
    lemma_prefix_first(groups, "roles"@, "scopes"@);
    lemma_prefix_first(scopes, "roles"@, "groups"@);
    assert(attribute.subrange(0, 11) =~= "attributes."@);
    assert(attribute.skip(11) =~= key);
}

/// A field is indexed only under a name with the same first character.
proof fn lemma_prefix_first(field: Seq<char>, name: Seq<char>, other: Seq<char>)
    requires
        field.len() > 0,
        name.len() > 0,
        other.len() > 0,
    ensures
        field[0] != name[0] ==> indexed(field, name) is None,
        field[0] != other[0] ==> indexed(field, other) is None,
{
    let prefix = name + "["@;
    let other_prefix = other + "["@;
    if prefix.is_prefix_of(field) {
        assert(field.subrange(0, prefix.len() as int)[0] == prefix[0]);
    }
    if other_prefix.is_prefix_of(field) {
        assert(field.subrange(0, other_prefix.len() as int)[0] == other_prefix[0]);
    }
}

/// The role names: one to 128 characters, each an ASCII letter or digit, an
/// underscore or a hyphen, here by their codes. So a name and a character make
/// a name exactly if the character is one of these and there is room for it.
pub proof fn law_role_names(role: Seq<char>, c: char)
    ensures
        valid_role_name(role) <==> 1 <= role.len() <= 128 && forall|i: int|
            0 <= i < role.len() ==> {
                let code = (#[trigger] role[i]) as int;
                48 <= code <= 57 || 65 <= code <= 90 || 97 <= code <= 122 || code == 95 || code
                    == 45
            },
        valid_role_name(role) ==> (valid_role_name(role.push(c)) <==> role.len() < 128 && (
        'a' <= c <= 'z' || 'A' <= c <= 'Z' || '0' <= c <= '9' || c == '_' || c == '-')),
{
    if valid_role_name(role) {
        let longer = role.push(c);
        assert(longer.last() == c);
        if valid_role_name(longer) {
            assert(role_char(longer[role.len() as int]));
        }
    }
}

/// A field is indexed under a name exactly if it is the name with something in
/// brackets behind it that reads as an index.
pub proof fn law_indexed_form(field: Seq<char>, name: Seq<char>, inner: Seq<char>)
    ensures
        indexed(name + "["@ + inner + "]"@, name) == index_value(inner),
        indexed(field, name) is Some ==> exists|text: Seq<char>|
            field == #[trigger] (name + "["@ + text + "]"@) && index_value(text) == indexed(
                field,
                name,
            ),
{
    reveal_strlit("]");
    let prefix = name + "["@;
    let whole = prefix + inner + "]"@;
    assert(whole.subrange(0, prefix.len() as int) =~= prefix);
    let rest = whole.skip(prefix.len() as int);
    assert(rest =~= inner + "]"@);
    assert(rest.drop_last() =~= inner);
    if indexed(field, name) is Some {
        let tail = field.skip(prefix.len() as int);
        let text = tail.drop_last();
        assert(field =~= prefix + text + "]"@) by {
            assert(field.subrange(0, prefix.len() as int) =~= prefix);
            assert(field =~= prefix + tail);
            assert(tail =~= text + "]"@);
        }
    }
}

/// A field with an index has the entry of its list at that index, if the list is
/// so long; and a field that is none of those that a template can name has no
/// value.
pub proof fn law_list_fields(field: Seq<char>, identity: IdentityView)
    ensures
        indexed(field, "roles"@) matches Some(n) ==> field_value(field, identity) == (if n
            < identity.roles.len() {
            Some(identity.roles[n as int])
        } else {
            None
        }),
        indexed(field, "groups"@) matches Some(n) ==> field_value(field, identity) == (if n
            < identity.groups.len() {
            Some(identity.groups[n as int])
        } else {
            None
        }),
        indexed(field, "scopes"@) matches Some(n) ==> field_value(field, identity) == (if n
            < identity.scopes.len() {
            Some(identity.scopes[n as int])
        } else {
            None
        }),
        field != "subject_id"@ && field != "kind"@ && field != "trust_level"@ && field
            != "auth_provider"@ && !"attributes."@.is_prefix_of(field) && indexed(field, "roles"@)
            is None && indexed(field, "groups"@) is None && indexed(field, "scopes"@) is None
            ==> field_value(field, identity) is None,
{
    reveal_strlit("subject_id");
    reveal_strlit("kind");
    reveal_strlit("trust_level");
    reveal_strlit("auth_provider");
    reveal_strlit("attributes.");
    reveal_strlit("roles");
    reveal_strlit("groups");
    reveal_strlit("scopes");
    reveal_strlit("[");
    assert("kind"@[0] == 'k');
    assert("subject_id"@[0] == 's' && "subject_id"@[1] == 'u');
    assert("trust_level"@[0] == 't');
    assert("auth_provider"@[0] == 'a');
    if "attributes."@.is_prefix_of(field) {
        assert(field.subrange(0, 11)[0] == "attributes."@[0]);
        assert(field[0] == 'a');
    }
    if indexed(field, "roles"@) is Some {
        let prefix = "roles"@ + "["@;
        assert(field.subrange(0, prefix.len() as int)[0] == prefix[0]);
        assert(field[0] == 'r');
    }
    if indexed(field, "groups"@) is Some {
        let prefix = "groups"@ + "["@;
        assert(field.subrange(0, prefix.len() as int)[0] == prefix[0]);
        assert(field[0] == 'g');
        lemma_prefix_first(field, "roles"@, "scopes"@);
    }
    if indexed(field, "scopes"@) is Some {
        let prefix = "scopes"@ + "["@;
        assert(field.subrange(0, prefix.len() as int)[0] == prefix[0]);
        assert(field.subrange(0, prefix.len() as int)[1] == prefix[1]);
        assert(field[0] == 's' && field[1] == 'c');
        lemma_prefix_first(field, "roles"@, "groups"@);
    }
}

/// What stands before an expansion comes before its text, and a failure stays
/// the same failure.
pub proof fn law_prepend(text: Seq<char>, rest: Seq<char>, field: Seq<char>)
    ensures
        prepend(text, Expansion::Text(rest)) == Expansion::Text(text + rest),
        prepend(text, Expansion::Failed(field)) == Expansion::Failed(field),
{
}

/// A placeholder without `identity.` names its field as it stands, and one that
/// is never closed fails the template and is shown as far as it goes.
pub proof fn law_other_placeholders(p: Seq<char>, rest: Seq<char>, identity: IdentityView)
    requires
        !p.contains('}'),
    ensures
        !"identity."@.is_prefix_of(p) ==> expand("${"@ + p + "}"@ + rest, identity)
            == match field_value(p, identity) {
            Some(value) => if value.len() > 0 {
                match expand(rest, identity) {
                    Expansion::Text(text) => Expansion::Text(value + text),
                    Expansion::Failed(field) => Expansion::Failed(field),
                }
            } else {
                Expansion::Failed(p)
            },
            None => Expansion::Failed(p),
        },
        expand("${"@ + p, identity) == Expansion::Failed(
            "unterminated placeholder `${"@ + p + "`"@,
        ),
{
    reveal_strlit("${");
    reveal_strlit("}");
    let closed = "${"@ + p + "}"@ + rest;
    let tail = closed.skip(2);
    let n = p.len() as int;
    assert(opens_placeholder(closed));
    assert forall|i: int| 0 <= i < n implies tail[i] != '}' by {
        assert(tail[i] == p[i]);
        assert(p.contains(p[i]));
    }
    lemma_count_before(tail, '}', n);
    assert(tail.take(n) =~= p);
    assert(tail.skip(n + 1) =~= rest);
    let open = "${"@ + p;
    assert(opens_placeholder(open));
    assert(open.skip(2) =~= p);
    assert forall|i: int| 0 <= i < n implies p[i] != '}' by {
        assert(p.contains(p[i]));
    }
    lemma_count_before(p, '}', n);
}

/// Under a template mapping the template decides. Where it comes to a text that
/// is not empty, that text is the role, marked as derived, whatever the
/// operator's `vault_role` is. Where it comes to nothing, `vault_role` is the
/// role, if there is one. Where it fails, no role is given, whatever
/// `vault_role` is.
pub proof fn law_template_decides(
    identity: IdentityView,
    target: TargetView,
    template: Seq<char>,
    vault_role: Seq<char>,
)
    requires
        target.identity_mapping == IdentityMapping::Template,
        target.role_template == Some(template),
    ensures
        expand(template, identity) matches Expansion::Text(text) ==> {
            &&& text.len() > 0 ==> resolution_of(identity, target) == (ResolutionView::Role {
                role: text,
                identity_derived: true,
            })
            &&& text.len() == 0 && target.vault_role.len() > 0 ==> resolution_of(identity, target)
                == (ResolutionView::Role { role: target.vault_role, identity_derived: false })
            &&& text.len() == 0 && target.vault_role.len() == 0 ==> resolution_of(identity, target)
                == (ResolutionView::EmptyDerived {
                reason: "template substitution produced empty role name"@,
            })
        },
        expand(template, identity) matches Expansion::Failed(field) ==> resolution_of(
            identity,
            target,
        ) == (ResolutionView::SubstitutionFailed { field }),
        template.len() > 0 ==> resolution_of(identity, target) == resolution_of(
            identity,
            TargetView { vault_role, ..target },
        ),
{
    if template.len() > 0 {
        law_expansion_is_not_empty(template, identity);
    }
}

/// A template without a placeholder is the role itself, for every caller; and a
/// text, a placeholder and a text make the role of the first text, the field's
/// value and the second text, where the texts open no placeholder.
pub proof fn law_template_role(
    identity: IdentityView,
    target: TargetView,
    before: Seq<char>,
    field: Seq<char>,
    after: Seq<char>,
)
    requires
        target.identity_mapping == IdentityMapping::Template,
        !before.contains('$'),
        !after.contains('$'),
        !field.contains('}'),
    ensures
        target.role_template == Some(before) && before.len() > 0 ==> resolution_of(identity, target)
            == (ResolutionView::Role { role: before, identity_derived: true }),
        target.role_template == Some(before + ("${identity."@ + field + "}"@ + after))
            ==> resolution_of(identity, target) == (match field_value(field, identity) {
            Some(value) => if value.len() > 0 {
                ResolutionView::Role { role: before + value + after, identity_derived: true }
            } else {
                ResolutionView::SubstitutionFailed { field }
            },
            None => ResolutionView::SubstitutionFailed { field },
        }),
{
    assert forall|i: int| 0 <= i < before.len() - 1 && #[trigger] before[i]
        == '$' implies before[i + 1] != '{' by {
        assert(before.contains(before[i]));
    }
    assert forall|i: int| 0 <= i < after.len() - 1 && #[trigger] after[i] == '$' implies after[i
        + 1] != '{' by {
        assert(after.contains(after[i]));
    }
    law_plain_template_is_literal(before, identity);
    law_plain_template_is_literal(after, identity);
    law_placeholder(field, after, identity);
    if before.len() > 0 {
        assert(before.contains(before.last()));
    }
    let tail = "${identity."@ + field + "}"@ + after;
    law_template_concatenation(before, tail, identity);
    if field_value(field, identity) is Some {
        let value = field_value(field, identity)->0;
        assert(before + (value + after) =~= before + value + after);
    }
}

/// Under a mapping by subject the caller's subject decides, and under a mapping
/// by role the first of the caller's roles, whatever `vault_role` is. Only where
/// the caller has none, or an empty one, `vault_role` is the role, if there is
/// one.
pub proof fn law_identity_decides(identity: IdentityView, target: TargetView)
    ensures
        ({
            let resolution = resolution_of(identity, target);
            let subject = target.identity_mapping == IdentityMapping::SubjectId;
            let first = target.identity_mapping == IdentityMapping::FromRole;
            let has_subject = identity.subject_id is Some && identity.subject_id->0.len() > 0;
            let has_role = identity.roles.len() > 0 && identity.roles[0].len() > 0;
            let none = (subject && !has_subject) || (first && !has_role);
            &&& subject && has_subject ==> resolution == (ResolutionView::Role {
                role: identity.subject_id->0,
                identity_derived: true,
            })
            &&& first && has_role ==> resolution == (ResolutionView::Role {
                role: identity.roles[0],
                identity_derived: true,
            })
            &&& none && target.vault_role.len() > 0 ==> resolution == (ResolutionView::Role {
                role: target.vault_role,
                identity_derived: false,
            })
            &&& none && target.vault_role.len() == 0 ==> resolution == (
            ResolutionView::EmptyDerived {
                reason: if subject {
                    "identity has no subject_id and no static fallback"@
                } else {
                    "identity has no roles and no static fallback"@
                },
            })
        }),
{
}

/// The contracts speak of all of an identity.
pub proof fn law_identity_is_viewed_whole(identity: PluginIdentity, i: int, key: Seq<char>)
    ensures
        identity@.kind == identity.kind@,
        identity@.trust_level == identity.trust_level@,
        identity@.subject_id is Some <==> identity.subject_id is Some,
        identity.subject_id matches Some(subject) ==> identity@.subject_id == Some(subject@),
        identity@.auth_provider is Some <==> identity.auth_provider is Some,
        identity.auth_provider matches Some(provider) ==> identity@.auth_provider == Some(
            provider@,
        ),
        identity@.roles.len() == identity.roles@.len(),
        0 <= i < identity.roles@.len() ==> identity@.roles[i] == identity.roles@[i]@,
        identity@.groups.len() == identity.groups@.len(),
        0 <= i < identity.groups@.len() ==> identity@.groups[i] == identity.groups@[i]@,
        identity@.scopes.len() == identity.scopes@.len(),
        0 <= i < identity.scopes@.len() ==> identity@.scopes[i] == identity.scopes@[i]@,
        identity@.attributes.contains_key(key) <==> identity.attributes@.contains_key(key),
        identity.attributes@.contains_key(key) ==> identity@.attributes[key]
            == identity.attributes@[key]@,
{
}

/// The contracts speak of a resolution by its kind and all that it holds.
pub proof fn law_resolution_is_viewed_whole(resolution: Resolution)
    ensures
        resolution matches Resolution::Role { role, identity_derived } ==> resolution@ == (
        ResolutionView::Role { role: role@, identity_derived }),
        resolution matches Resolution::EmptyDerived { reason } ==> resolution@ == (
        ResolutionView::EmptyDerived { reason: reason@ }),
        resolution matches Resolution::SubstitutionFailed { field } ==> resolution@ == (
        ResolutionView::SubstitutionFailed { field: field@ }),
{
}

} // verus!
