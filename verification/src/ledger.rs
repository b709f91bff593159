//! The per-store ledger: a mapping from asset class to a holding container,
//! with class-scoped put and take operations.
//!
//! A container is created lazily on the first deposit of a class and never
//! removed: a fully drained container stays as a placeholder, so "never
//! deposited" and "drained to zero" stay distinguishable.

use vstd::prelude::*;
use std::collections::HashMap;
use crate::asset::{contains_id, Bundle};
use crate::errors::StoreError;

verus! {

broadcast use vstd::std_specs::hash::group_hash_axioms;

/// What one holding container holds, as mathematics: a fungible quantity
/// together with a set of non-fungible instance ids.
pub ghost struct HoldingView {
    pub amount: nat,
    pub ids: Set<u64>,
}

/// One holding container: the units of a single asset class that the ledger
/// holds. A class is fungible or non-fungible for its whole life, so in
/// practice one of the two components stays empty.
pub struct Holding {
    pub amount: u128,
    pub ids: Vec<u64>,
}

impl View for Holding {
    type V = HoldingView;

    open spec fn view(&self) -> HoldingView {
        HoldingView { amount: self.amount as nat, ids: self.ids@.to_set() }
    }
}

/// The contents of a container that was never deposited into.
pub open spec fn empty_holding() -> HoldingView {
    HoldingView { amount: 0, ids: Set::empty() }
}

/// The contents of the container for `class`, or the empty contents where no
/// container exists yet.
pub open spec fn holding_or_empty(ledger: Map<u64, HoldingView>, class: u64) -> HoldingView {
    if ledger.contains_key(class) {
        ledger[class]
    } else {
        empty_holding()
    }
}

/// The contents of a container after a bundle of its class is merged in.
pub open spec fn merged_holding(h: HoldingView, single_bundle: Bundle) -> HoldingView {
    match single_bundle {
        Bundle::Fungible { amount, .. } => HoldingView {
            amount: (h.amount + amount) as nat,
            ids: h.ids,
        },
        Bundle::NonFungible { ids, .. } => HoldingView {
            amount: h.amount,
            ids: h.ids.union(ids@.to_set()),
        },
    }
}

/// The ledger after `put`: the bundle's class is topped up, creating the
/// container on first use.
pub open spec fn put_spec(ledger: Map<u64, HoldingView>, single_bundle: Bundle) -> Map<
    u64,
    HoldingView,
> {
    ledger.insert(
        single_bundle.spec_class(),
        merged_holding(holding_or_empty(ledger, single_bundle.spec_class()), single_bundle),
    )
}

/// A fungible top-up must fit the container's machine width.
pub open spec fn put_fits(ledger: Map<u64, HoldingView>, single_bundle: Bundle) -> bool {
    match single_bundle {
        Bundle::Fungible { class, amount } => holding_or_empty(ledger, class).amount + amount
            <= u128::MAX,
        Bundle::NonFungible { .. } => true,
    }
}

/// Result of a fungible debit of `amount` from the container for `class`:
/// the debited ledger, or the failure that forbids it.
pub open spec fn take_amount_spec(
    ledger: Map<u64, HoldingView>,
    class: u64,
    amount: nat,
) -> Result<Map<u64, HoldingView>, StoreError> {
    if !ledger.contains_key(class) {
        Err(StoreError::NoSuchClass)
    } else if ledger[class].amount < amount {
        Err(StoreError::InsufficientBalance)
    } else {
        Ok(
            ledger.insert(
                class,
                HoldingView {
                    amount: (ledger[class].amount - amount) as nat,
                    ids: ledger[class].ids,
                },
            ),
        )
    }
}

/// Result of removing the named instances from the container for `class`:
/// the debited ledger, or the failure that forbids it.
pub open spec fn take_instances_spec(
    ledger: Map<u64, HoldingView>,
    class: u64,
    requested: Set<u64>,
) -> Result<Map<u64, HoldingView>, StoreError> {
    if !ledger.contains_key(class) {
        Err(StoreError::NoSuchClass)
    } else if !requested.subset_of(ledger[class].ids) {
        Err(StoreError::MissingInstance)
    } else {
        Ok(
            ledger.insert(
                class,
                HoldingView {
                    amount: ledger[class].amount,
                    ids: ledger[class].ids.difference(requested),
                },
            ),
        )
    }
}

/// The per-store ledger. At most one holding container exists per asset
/// class; entries are never removed.
pub struct Ledger {
    vaults: HashMap<u64, Holding>,
}

impl View for Ledger {
    type V = Map<u64, HoldingView>;

    closed spec fn view(&self) -> Map<u64, HoldingView> {
        Map::new(|c: u64| self.vaults@.contains_key(c), |c: u64| self.vaults@[c]@)
    }
}

proof fn lemma_to_set_push<A>(s: Seq<A>, x: A)
    ensures
        s.push(x).to_set() == s.to_set().insert(x),
{
    assert forall|y: A| #[trigger] s.push(x).to_set().contains(y) implies s.to_set().insert(
        x,
    ).contains(y) by {
        let i = choose|i: int| 0 <= i < s.push(x).len() && s.push(x)[i] == y;
        if i < s.len() {
            assert(s[i] == y);
        } else {
            assert(y == x);
        }
    };
    assert forall|y: A| s.to_set().insert(x).contains(y) implies s.push(x).to_set().contains(
        y,
    ) by {
        if s.to_set().contains(y) {
            let i = choose|i: int| 0 <= i < s.len() && s[i] == y;
            assert(s.push(x)[i] == y);
        } else {
            assert(s.push(x)[s.len() as int] == y);
        }
    };
    assert(s.push(x).to_set() =~= s.to_set().insert(x));
}

proof fn lemma_to_set_concat<A>(a: Seq<A>, b: Seq<A>)
    ensures
        (a + b).to_set() == a.to_set().union(b.to_set()),
{
    assert forall|x: A| #[trigger] (a + b).to_set().contains(x) implies a.to_set().union(
        b.to_set(),
    ).contains(x) by {
        let i = choose|i: int| 0 <= i < (a + b).len() && (a + b)[i] == x;
        if i < a.len() {
            assert(a[i] == x);
        } else {
            assert(b[i - a.len()] == x);
        }
    };
    assert forall|x: A| a.to_set().union(b.to_set()).contains(x) implies (a + b).to_set().contains(
        x,
    ) by {
        if a.to_set().contains(x) {
            let i = choose|i: int| 0 <= i < a.len() && a[i] == x;
            assert((a + b)[i] == x);
        } else {
            let i = choose|i: int| 0 <= i < b.len() && b[i] == x;
            assert((a + b)[a.len() + i] == x);
        }
    };
    assert((a + b).to_set() =~= a.to_set().union(b.to_set()));
}

/// A container holding exactly one bundle's units.
fn holding_of_bundle(single_bundle: Bundle) -> (h: Holding)
    ensures
        h@ == merged_holding(empty_holding(), single_bundle),
{
    match single_bundle {
        Bundle::Fungible { amount, .. } => {
            let h = Holding { amount, ids: Vec::new() };
            proof {
                assert(h.ids@.to_set() =~= Set::<u64>::empty());
            }
            h
        },
        Bundle::NonFungible { ids, .. } => {
            let h = Holding { amount: 0, ids };
            proof {
                assert(Set::<u64>::empty().union(h.ids@.to_set()) =~= h.ids@.to_set());
            }
            h
        },
    }
}

/// A container after a same-class bundle is merged into it.
fn merge_holding(h: Holding, single_bundle: Bundle) -> (m: Holding)
    requires
        h@.amount + single_bundle.spec_amount() <= u128::MAX,
    ensures
        m@ == merged_holding(h@, single_bundle),
{
    match single_bundle {
        Bundle::Fungible { amount, .. } => Holding { amount: h.amount + amount, ids: h.ids },
        Bundle::NonFungible { ids, .. } => {
            let mut held = h.ids;
            let ghost held0 = held@;
            let mut i: usize = 0;
            while i < ids.len()
                invariant
                    i <= ids.len(),
                    held@ == held0 + ids@.take(i as int),
                decreases ids.len() - i,
            {
                held.push(ids[i]);
                i += 1;
                proof {
                    assert(held@ =~= held0 + ids@.take(i as int));
                }
            }
            proof {
                assert(ids@.take(ids@.len() as int) =~= ids@);
                lemma_to_set_concat(held0, ids@);
            }
            Holding { amount: h.amount, ids: held }
        },
    }
}

impl Ledger {
    /// A new ledger with no containers.
    pub fn new() -> (l: Ledger)
        ensures
            l@ == Map::<u64, HoldingView>::empty(),
    {
        let l = Ledger { vaults: HashMap::new() };
        proof {
            assert(l@ =~= Map::<u64, HoldingView>::empty());
        }
        l
    }

    /// Whether a container exists for `class`.
    pub fn contains_class(&self, class: u64) -> (r: bool)
        ensures
            r == self@.contains_key(class),
    {
        self.vaults.contains_key(&class)
    }

    /// The fungible quantity held for `class`, or `None` where no container
    /// exists.
    pub fn amount_of(&self, class: u64) -> (r: Option<u128>)
        ensures
            match r {
                Some(a) => self@.contains_key(class) && a as nat == self@[class].amount,
                None => !self@.contains_key(class),
            },
    {
        match self.vaults.get(&class) {
            Some(h) => Some(h.amount),
            None => None,
        }
    }

    /// The non-fungible instance ids held for `class`, or `None` where no
    /// container exists.
    pub fn instances_of(&self, class: u64) -> (r: Option<Vec<u64>>)
        ensures
            match r {
                Some(v) => self@.contains_key(class) && v@.to_set() == self@[class].ids,
                None => !self@.contains_key(class),
            },
    {
        match self.vaults.get(&class) {
            Some(h) => {
                let mut out: Vec<u64> = Vec::new();
                let mut i: usize = 0;
                while i < h.ids.len()
                    invariant
                        i <= h.ids.len(),
                        out@ == h.ids@.take(i as int),
                    decreases h.ids.len() - i,
                {
                    out.push(h.ids[i]);
                    i += 1;
                    proof {
                        assert(out@ =~= h.ids@.take(i as int));
                    }
                }
                proof {
                    assert(h.ids@.take(h.ids@.len() as int) =~= h.ids@);
                }
                Some(out)
            },
            None => None,
        }
    }

    /// Insert a bundle into the container for its class, creating the
    /// container if absent. The caller has already validated the bundle as
    /// non-empty, so there is no failure condition.
    pub fn put(&mut self, single_bundle: Bundle)
        requires
            !single_bundle.spec_is_empty(),
            put_fits(old(self)@, single_bundle),
        ensures
            final(self)@ == put_spec(old(self)@, single_bundle),
    {
        let class = single_bundle.class();
        match self.vaults.remove(&class) {
            Some(h) => {
                let ghost prior = h@;
                proof {
                    assert(old(self)@.contains_key(class) && old(self)@[class] == prior);
                }
                let merged = merge_holding(h, single_bundle);
                self.vaults.insert(class, merged);
                proof {
                    assert(self@ =~= put_spec(old(self)@, single_bundle));
                }
            },
            None => {
                let fresh = holding_of_bundle(single_bundle);
                self.vaults.insert(class, fresh);
                proof {
                    assert(!old(self)@.contains_key(class));
                    assert(self@ =~= put_spec(old(self)@, single_bundle));
                }
            },
        }
    }

    /// Debit exactly `amount` units of `class` and return them as a bundle.
    pub fn take_amount(&mut self, class: u64, amount: u128) -> (r: Result<Bundle, StoreError>)
        ensures
            match take_amount_spec(old(self)@, class, amount as nat) {
                Ok(m) => final(self)@ == m && r == Ok::<Bundle, StoreError>(
                    Bundle::Fungible { class, amount },
                ),
                Err(e) => final(self)@ == old(self)@ && r == Err::<Bundle, StoreError>(e),
            },
    {
        match self.vaults.remove(&class) {
            None => {
                proof {
                    assert(self@ =~= old(self)@);
                }
                Err(StoreError::NoSuchClass)
            },
            Some(h) => {
                if h.amount < amount {
                    self.vaults.insert(class, h);
                    proof {
                        assert(self@ =~= old(self)@);
                    }
                    Err(StoreError::InsufficientBalance)
                } else {
                    let debited = Holding { amount: h.amount - amount, ids: h.ids };
                    self.vaults.insert(class, debited);
                    proof {
                        let m = take_amount_spec(old(self)@, class, amount as nat)->Ok_0;
                        assert(self@ =~= m);
                    }
                    Ok(Bundle::Fungible { class, amount })
                }
            },
        }
    }

    /// Remove exactly the named instances of `class` and return them as a
    /// bundle. Duplicates among `requested` have no extra effect.
    pub fn take_instances(&mut self, class: u64, requested: &Vec<u64>) -> (r: Result<
        Bundle,
        StoreError,
    >)
        ensures
            match take_instances_spec(old(self)@, class, requested@.to_set()) {
                Ok(m) => final(self)@ == m && (r matches Ok(b) && (b matches Bundle::NonFungible {
                    ..
                }) && b.spec_class() == class && b.spec_ids() == requested@.to_set()),
                Err(e) => final(self)@ == old(self)@ && r == Err::<Bundle, StoreError>(e),
            },
    {
        let ghost req = requested@.to_set();
        match self.vaults.remove(&class) {
            None => {
                proof {
                    assert(self@ =~= old(self)@);
                }
                Err(StoreError::NoSuchClass)
            },
            Some(h) => {
                let ghost prior = h@;
                proof {
                    assert(old(self)@.contains_key(class) && old(self)@[class] == prior);
                }
                let mut i: usize = 0;
                while i < requested.len()
                    invariant
                        i <= requested.len(),
                        forall|j: int| 0 <= j < i ==> prior.ids.contains(#[trigger] requested@[j]),
                        prior == h@,
                        req == requested@.to_set(),
                        self.vaults@ == old(self).vaults@.remove(class),
                        old(self)@.contains_key(class) && old(self)@[class] == prior,
                    decreases requested.len() - i,
                {
                    let x = requested[i];
                    if !contains_id(&h.ids, x) {
                        self.vaults.insert(class, h);
                        proof {
                            assert(requested@.contains(x)) by {
                                assert(requested@[i as int] == x);
                            }
                            assert(req.contains(x));
                            assert(!req.subset_of(prior.ids));
                            assert(self@ =~= old(self)@);
                        }
                        return Err(StoreError::MissingInstance);
                    }
                    i += 1;
                }
                proof {
                    assert forall|x: u64| req.contains(x) implies prior.ids.contains(x) by {
                        let j = choose|j: int|
                            0 <= j < requested@.len() && requested@[j] == x;
                        assert(prior.ids.contains(requested@[j]));
                    };
                    assert(req.subset_of(prior.ids));
                }
                let mut kept: Vec<u64> = Vec::new();
                let mut taken: Vec<u64> = Vec::new();
                proof {
                    assert(kept@.to_set() =~= h.ids@.take(0).to_set().difference(req));
                    assert(taken@.to_set() =~= h.ids@.take(0).to_set().intersect(req));
                }
                let mut k: usize = 0;
                while k < h.ids.len()
                    invariant
                        k <= h.ids.len(),
                        kept@.to_set() == h.ids@.take(k as int).to_set().difference(req),
                        taken@.to_set() == h.ids@.take(k as int).to_set().intersect(req),
                        req == requested@.to_set(),
                    decreases h.ids.len() - k,
                {
                    let x = h.ids[k];
                    let ghost step = h.ids@.take(k as int);
                    let ghost kept0 = kept@;
                    let ghost taken0 = taken@;
                    if contains_id(requested, x) {
                        taken.push(x);
                        proof {
                            lemma_to_set_push(taken0, x);
                        }
                    } else {
                        kept.push(x);
                        proof {
                            lemma_to_set_push(kept0, x);
                        }
                    }
                    k += 1;
                    proof {
                        lemma_to_set_push(step, x);
                        assert(h.ids@.take(k as int) =~= step.push(x));
                        assert(kept@.to_set() =~= h.ids@.take(k as int).to_set().difference(req));
                        assert(taken@.to_set() =~= h.ids@.take(k as int).to_set().intersect(req));
                    }
                }
                proof {
                    assert(h.ids@.take(h.ids@.len() as int) =~= h.ids@);
                    assert(taken@.to_set() =~= req);
                }
                let remainder = Holding { amount: h.amount, ids: kept };
                self.vaults.insert(class, remainder);
                proof {
                    let m = take_instances_spec(old(self)@, class, req)->Ok_0;
                    assert(self@ =~= m);
                }
                Ok(Bundle::NonFungible { class, ids: taken })
            },
        }
    }
}

} // verus!
