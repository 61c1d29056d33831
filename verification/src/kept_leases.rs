//! The leases that are left for Vault to expire.

use crate::text::same_text;
use vstd::multiset::Multiset;
use vstd::prelude::*;

verus! {

/// The leases of credentials that were issued to targets with `revoke_on_evict`
/// off, each as often as it was issued so. When the cache drops such a
/// credential, nothing is sent.
#[derive(Debug)]
pub struct KeptLeases {
    items: Vec<String>,
}

impl View for KeptLeases {
    type V = Multiset<Seq<char>>;

    closed spec fn view(&self) -> Multiset<Seq<char>> {
        self.items.deep_view().to_multiset()
    }
}

/// The record after a credential with this lease is issued to a target whose
/// switch stands so: with the switch off the lease is kept once more, with the
/// switch on it is kept no longer.
pub open spec fn recorded(
    kept: Multiset<Seq<char>>,
    lease_id: Seq<char>,
    revoke_on_evict: bool,
) -> Multiset<Seq<char>> {
    if revoke_on_evict {
        kept.update(lease_id, 0)
    } else {
        kept.insert(lease_id)
    }
}

impl KeptLeases {
    /// A record without leases.
    pub fn new() -> (kept: Self)
        ensures
            kept@ == Multiset::<Seq<char>>::empty(),
    {
        let kept = KeptLeases { items: Vec::new() };
        proof {
            kept.items.deep_view().to_multiset_ensures();
            assert(kept@.len() == 0);
            assert(kept@ =~= Multiset::<Seq<char>>::empty());
        }
        kept
    }

    /// The first place of a lease, or the length of the record if it is not on
    /// it.
    fn place(&self, lease_id: &str) -> (i: usize)
        ensures
            i <= self.items@.len(),
            i < self.items@.len() ==> self.items.deep_view()[i as int] == lease_id@,
            i < self.items@.len() <==> self@.contains(lease_id@),
    {
        let ghost ids = self.items.deep_view();
        proof {
            ids.to_multiset_ensures();
        }
        let mut i: usize = 0;
        while i < self.items.len()
            invariant
                i <= self.items@.len(),
                ids == self.items.deep_view(),
                ids.len() == self.items@.len(),
                ids.contains(lease_id@) <==> self@.count(lease_id@) > 0,
                forall|j: int| 0 <= j < i ==> #[trigger] ids[j] != lease_id@,
            decreases self.items@.len() - i,
        {
            assert(ids[i as int] == self.items@[i as int]@);
            if same_text(self.items[i].as_str(), lease_id) {
                assert(ids.contains(ids[i as int]));
                return i;
            }
            i = i + 1;
        }
        i
    }

    /// Whether the lease is to be left for Vault to expire.
    pub fn contains(&self, lease_id: &str) -> (res: bool)
        ensures
            res == self@.contains(lease_id@),
    {
        self.place(lease_id) < self.items.len()
    }

    /// Takes a lease off the record once, and tells whether it was on it.
    pub fn remove(&mut self, lease_id: &str) -> (found: bool)
        ensures
            found == old(self)@.contains(lease_id@),
            final(self)@ == old(self)@.remove(lease_id@),
    {
        let ghost before = self.items.deep_view();
        let i: usize = self.place(lease_id);
        if i == self.items.len() {
            assert(self@ =~= self@.remove(lease_id@));
            return false;
        }
        self.items.remove(i);
        proof {
            assert(self.items.deep_view() =~= before.remove(i as int));
            before.to_multiset_ensures();
        }
        true
    }

    /// Puts a lease on the record once more.
    pub fn insert(&mut self, lease_id: &str)
        ensures
            final(self)@ == old(self)@.insert(lease_id@),
    {
        let ghost before = self.items.deep_view();
        self.items.push(lease_id.to_owned());
        proof {
            assert(self.items.deep_view() =~= before.push(lease_id@));
            before.to_multiset_ensures();
        }
    }

    /// Notes that a credential with this lease was issued to a target whose
    /// switch stands so.
    pub fn record(&mut self, lease_id: &str, revoke_on_evict: bool)
        ensures
            final(self)@ == recorded(old(self)@, lease_id@, revoke_on_evict),
    {
        if !revoke_on_evict {
            self.insert(lease_id);
            return;
        }
        let ghost before = self@;
        while self.contains(lease_id)
            invariant
                forall|id: Seq<char>|
                    id != lease_id@ ==> #[trigger] self@.count(id) == before.count(id),
            decreases self@.count(lease_id@),
        {
            self.remove(lease_id);
        }
        proof {
            broadcast use vstd::multiset::group_multiset_properties;

            assert(self@ =~= before.update(lease_id@, 0));
        }
    }
}

/// What can happen to the record.
pub enum LeaseUse {
    /// A credential was issued.
    Issued { lease_id: Seq<char>, revoke_on_evict: bool },
    /// A credential was dropped from the cache.
    Evicted { lease_id: Seq<char> },
}

/// The lease that is used.
pub open spec fn used_lease(used: LeaseUse) -> Seq<char> {
    match used {
        LeaseUse::Issued { lease_id, .. } => lease_id,
        LeaseUse::Evicted { lease_id } => lease_id,
    }
}

/// The record after one use.
pub open spec fn lease_used(kept: Multiset<Seq<char>>, used: LeaseUse) -> Multiset<Seq<char>> {
    match used {
        LeaseUse::Issued { lease_id, revoke_on_evict } => recorded(kept, lease_id, revoke_on_evict),
        LeaseUse::Evicted { lease_id } => kept.remove(lease_id),
    }
}

/// The record after a row of uses.
pub open spec fn leases_after(
    kept: Multiset<Seq<char>>,
    uses: Seq<LeaseUse>,
) -> Multiset<Seq<char>>
    decreases uses.len(),
{
    if uses.len() == 0 {
        kept
    } else {
        leases_after(lease_used(kept, uses[0]), uses.drop_first())
    }
}

/// How often a use occurs in a row of uses.
pub open spec fn times(uses: Seq<LeaseUse>, used: LeaseUse) -> nat
    decreases uses.len(),
{
    if uses.len() == 0 {
        0
    } else {
        (if uses[0] == used {
            1nat
        } else {
            0nat
        }) + times(uses.drop_first(), used)
    }
}

/// Whatever happens to other leases, a lease stays on the record as often as it
/// is on it.
pub proof fn law_other_leases_do_not_matter(
    kept: Multiset<Seq<char>>,
    uses: Seq<LeaseUse>,
    lease_id: Seq<char>,
)
    requires
        forall|i: int| 0 <= i < uses.len() ==> used_lease(#[trigger] uses[i]) != lease_id,
    ensures
        leases_after(kept, uses).count(lease_id) == kept.count(lease_id),
    decreases uses.len(),
{
    if uses.len() > 0 {
        broadcast use vstd::multiset::group_multiset_properties;

        let rest = uses.drop_first();
        assert forall|i: int| 0 <= i < rest.len() implies used_lease(#[trigger] rest[i])
            != lease_id by {
            assert(rest[i] == uses[i + 1]);
        }
        assert(used_lease(uses[0]) != lease_id);
        law_other_leases_do_not_matter(lease_used(kept, uses[0]), rest, lease_id);
    }
}

/// A lease that is never issued with the switch on is on the record at least as
/// often as it was before and was issued since, less its evictions.
pub proof fn law_kept_until_evicted(
    kept: Multiset<Seq<char>>,
    uses: Seq<LeaseUse>,
    lease_id: Seq<char>,
)
    requires
        !uses.contains(LeaseUse::Issued { lease_id, revoke_on_evict: true }),
    ensures
        leases_after(kept, uses).count(lease_id) + times(uses, LeaseUse::Evicted { lease_id })
            >= kept.count(lease_id) + times(
            uses,
            LeaseUse::Issued { lease_id, revoke_on_evict: false },
        ),
    decreases uses.len(),
{
    if uses.len() > 0 {
        broadcast use vstd::multiset::group_multiset_properties;

        let rest = uses.drop_first();
        let revoked = LeaseUse::Issued { lease_id, revoke_on_evict: true };
        assert(uses[0] != revoked) by {
            if uses[0] == revoked {
                assert(uses.contains(uses[0]));
            }
        }
        assert(!rest.contains(revoked)) by {
            if rest.contains(revoked) {
                let j = choose|j: int| 0 <= j < rest.len() && rest[j] == revoked;
                assert(uses[j + 1] == revoked);
            }
        }
        law_kept_until_evicted(lease_used(kept, uses[0]), rest, lease_id);
    }
}

/// With the switch off a lease is kept once more, with the switch on not at all;
/// no other lease is touched.
pub proof fn law_recorded(
    kept: Multiset<Seq<char>>,
    lease_id: Seq<char>,
    other: Seq<char>,
    revoke_on_evict: bool,
)
    ensures
        recorded(kept, lease_id, false).count(lease_id) == kept.count(lease_id) + 1,
        recorded(kept, lease_id, true).count(lease_id) == 0,
        other != lease_id ==> recorded(kept, lease_id, revoke_on_evict).count(other) == kept.count(
            other,
        ),
{
    broadcast use vstd::multiset::group_multiset_properties;

}

} // verus!
