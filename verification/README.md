# Vault dynamic database credentials

Issues short-lived database credentials through Vault's database secrets engine.
The operator configures targets. For each request the caller's identity is mapped
to a Vault role, Vault mints a user name and a password under a lease, and the
host caches them for no longer than the lease or the operator's limit.

- `src/` is the library, verified with Verus: the configuration rules, the mapping
  from identity to role, the checks on who may have which role, the requests to
  Vault, and what follows from its replies. It sends nothing itself: each call to
  Vault is a state machine whose steps name the next action.
- `app/` is the plugin around it: JSON, HTTP, metrics and logging.
- `tests/` runs the library.

## Rules

- A role comes from `vault_role` (`static`), from the identity (`subject_id`,
  `from_role`) or from a template with `${identity.<field>}` placeholders
  (`template`). Where the identity has no such value, or a template comes to
  nothing, `vault_role` is the fallback. A placeholder without a value refuses the
  caller instead.
- A role that the identity selects takes an identity of trust level `verified`.
- Every role must be 1 to 128 letters, digits, underscores and hyphens.
- Where a target lists `allowed_roles`, a role outside the list is refused, except
  under a `static` mapping.
- A reply of 401 to a request for credentials drops the cached token, and the
  request is tried once more. With AppRole that is so of a revocation, too.
- When the cache drops a credential, its lease is revoked, unless the target has
  `revoke_on_evict` off: then nothing is sent, and Vault expires the lease.
