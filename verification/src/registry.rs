//! The registry that creates stores: at most one store per owner credential,
//! with lookup by credential and a running count of stores created.
//!
//! The registry enforces the uniqueness invariant that the stores themselves
//! trust; metadata, role and address plumbing belong to the execution
//! environment around it.

use vstd::prelude::*;
use crate::asset::OwnerCredential;
use crate::errors::RegistryError;
use crate::store::Soulstore;

verus! {

/// The mapping an entry list stands for: later entries would win, though the
/// registry never records one credential twice.
pub open spec fn map_of_entries(entries: Seq<(OwnerCredential, u64)>) -> Map<OwnerCredential, u64>
    decreases entries.len(),
{
    if entries.len() == 0 {
        Map::empty()
    } else {
        map_of_entries(entries.drop_last()).insert(entries.last().0, entries.last().1)
    }
}

proof fn lemma_map_of_entries_contains(entries: Seq<(OwnerCredential, u64)>, c: OwnerCredential)
    ensures
        map_of_entries(entries).contains_key(c) <==> exists|i: int|
            0 <= i < entries.len() && (#[trigger] entries[i]).0 == c,
    decreases entries.len(),
{
    if entries.len() > 0 {
        lemma_map_of_entries_contains(entries.drop_last(), c);
        if entries.last().0 == c {
            assert(entries[entries.len() - 1].0 == c);
        } else if map_of_entries(entries).contains_key(c) {
            let i = choose|i: int|
                0 <= i < entries.drop_last().len() && (#[trigger] entries.drop_last()[i]).0 == c;
            assert(entries[i].0 == c);
        } else {
            assert forall|i: int| 0 <= i < entries.len() && (#[trigger] entries[i]).0 == c implies
                false by {
                if i < entries.len() - 1 {
                    assert(entries.drop_last()[i].0 == c);
                }
            };
        }
    }
}

proof fn lemma_map_of_entries_at(entries: Seq<(OwnerCredential, u64)>, i: int)
    requires
        0 <= i < entries.len(),
        forall|p: int, q: int|
            0 <= p < q < entries.len() ==> (#[trigger] entries[p]).0 != (#[trigger] entries[q]).0,
    ensures
        map_of_entries(entries).contains_key(entries[i].0),
        map_of_entries(entries)[entries[i].0] == entries[i].1,
    decreases entries.len(),
{
    if i == entries.len() - 1 {
    } else {
        lemma_map_of_entries_at(entries.drop_last(), i);
        assert(entries.drop_last()[i] == entries[i]);
        assert(entries.last().0 != entries[i].0);
    }
}

/// The registry: who may create stores, which dapp they belong to, and which
/// store address each credential got.
pub struct Soulapi {
    soulstore_addresses: Vec<(OwnerCredential, u64)>,
    soulstores_created: usize,
    admin: u64,
    dapp_global: u64,
}

impl Soulapi {
    /// The credential-to-address mapping recorded so far.
    pub closed spec fn registered(&self) -> Map<OwnerCredential, u64> {
        map_of_entries(self.soulstore_addresses@)
    }

    /// How many stores this registry has created.
    pub closed spec fn count(&self) -> nat {
        self.soulstores_created as nat
    }

    /// The admin badge class fixed at creation.
    pub closed spec fn spec_admin(&self) -> u64 {
        self.admin
    }

    /// The dapp definition address fixed at creation.
    pub closed spec fn spec_dapp_definition(&self) -> u64 {
        self.dapp_global
    }

    /// The registry's internal invariant: the count matches the entries, and
    /// no credential is recorded twice.
    pub closed spec fn wf(&self) -> bool {
        &&& self.soulstores_created == self.soulstore_addresses@.len()
        &&& forall|p: int, q: int|
            0 <= p < q < self.soulstore_addresses@.len() ==> (
            #[trigger] self.soulstore_addresses@[p]).0 != (
            #[trigger] self.soulstore_addresses@[q]).0
    }

    /// Create a registry with no stores recorded. The admin badge class and
    /// the dapp definition address are fixed here; turning them into owner
    /// roles and metadata is the execution environment's work.
    pub fn instantiate_soul_api(admin: u64, dapp_def: u64) -> (api: Soulapi)
        ensures
            api.wf(),
            api.registered() == Map::<OwnerCredential, u64>::empty(),
            api.count() == 0,
            api.spec_admin() == admin,
            api.spec_dapp_definition() == dapp_def,
    {
        let api = Soulapi {
            soulstore_addresses: Vec::new(),
            soulstores_created: 0,
            admin,
            dapp_global: dapp_def,
        };
        api
    }

    /// The address recorded for `global_id`, if a store was created for it.
    pub fn lookup(&self, global_id: OwnerCredential) -> (r: Option<u64>)
        requires
            self.wf(),
        ensures
            match r {
                Some(a) => self.registered().contains_key(global_id)
                    && self.registered()[global_id] == a,
                None => !self.registered().contains_key(global_id),
            },
    {
        let n = self.soulstore_addresses.len();
        let mut i: usize = 0;
        while i < n
            invariant
                i <= n,
                n == self.soulstore_addresses@.len(),
                self.wf(),
                forall|j: int|
                    0 <= j < i ==> (#[trigger] self.soulstore_addresses@[j]).0 != global_id,
            decreases n - i,
        {
            let entry = self.soulstore_addresses[i];
            if entry.0.class == global_id.class && entry.0.instance == global_id.instance {
                proof {
                    assert(self.soulstore_addresses@[i as int].0 == global_id);
                    lemma_map_of_entries_at(self.soulstore_addresses@, i as int);
                }
                return Some(entry.1);
            }
            i += 1;
        }
        proof {
            lemma_map_of_entries_contains(self.soulstore_addresses@, global_id);
        }
        None
    }

    /// Create a new, empty store bound to `global_id` and record it under
    /// the given environment-allocated address. Fails, recording nothing,
    /// where a store for this credential already exists.
    pub fn create_soulstore(&mut self, global_id: OwnerCredential, address: u64) -> (r: Result<
        Soulstore,
        RegistryError,
    >)
        requires
            old(self).wf(),
        ensures
            final(self).wf(),
            final(self).spec_admin() == old(self).spec_admin(),
            final(self).spec_dapp_definition() == old(self).spec_dapp_definition(),
            if old(self).registered().contains_key(global_id) {
                &&& r == Err::<Soulstore, RegistryError>(RegistryError::StoreAlreadyExists)
                &&& final(self).registered() == old(self).registered()
                &&& final(self).count() == old(self).count()
            } else {
                &&& (r matches Ok(s) && s@ == Map::<u64, crate::ledger::HoldingView>::empty()
                    && s.credential() == global_id)
                &&& final(self).registered() == old(self).registered().insert(global_id, address)
                &&& final(self).count() == old(self).count() + 1
            },
    {
        if self.lookup(global_id).is_some() {
            return Err(RegistryError::StoreAlreadyExists);
        }
        proof {
            lemma_map_of_entries_contains(self.soulstore_addresses@, global_id);
        }
        let ghost pre_entries = self.soulstore_addresses@;
        self.soulstore_addresses.push((global_id, address));
        self.soulstores_created = self.soulstore_addresses.len();
        proof {
            assert(self.soulstore_addresses@.drop_last() =~= pre_entries);
            assert(self.soulstore_addresses@.last() == (global_id, address));
            assert(self.registered() == old(self).registered().insert(global_id, address));
        }
        Ok(Soulstore::instantiate_soulstore(global_id))
    }

    /// How many stores this registry has created.
    pub fn soulstore_count(&self) -> (n: usize)
        ensures
            n as nat == self.count(),
    {
        self.soulstores_created
    }
}

} // verus!
