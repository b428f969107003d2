//! The asset ledger: one state machine owning every keyed store, with the
//! create / mint / burn / transfer / set-metadata operations.
//!
//! Every operation checks its failure conditions before any mutation, so a
//! failing call leaves the ledger untouched; every successful call preserves
//! `Ledger::wf`, whose heart is conservation: each asset's recorded supply
//! equals the sum of its holders' balances.

use vstd::prelude::*;

use crate::model::{
    balance_of, lemma_balance_le_sum, lemma_lookup_asset_at, lemma_lookup_asset_none,
    lemma_lookup_asset_push, lemma_lookup_asset_update, lemma_lookup_balance_at,
    lemma_lookup_balance_none, lemma_lookup_balance_push, lemma_lookup_balance_update,
    lemma_lookup_metadata_at, lemma_lookup_metadata_none, lemma_lookup_metadata_push,
    lemma_lookup_metadata_update, lemma_no_balance_sum_zero, lemma_sum_balances_push,
    lemma_sum_balances_update, lemma_unique_keys_push, lemma_unique_keys_update, lookup_asset,
    lookup_balance, lookup_metadata, sum_balances, unique_balance_keys, AccountId, AssetDetails,
    AssetEntry, AssetId, AssetMetadata, BalanceEntry, Error, MetadataEntry, Policy,
};

verus! {

/// What a successful mint reports: the effective amount actually minted
/// (after clamping at the numeric maximum) and the new total supply.
#[derive(Clone, Copy, PartialEq, Eq, Structural, Debug)]
pub struct MintOutcome {
    pub minted: u128,
    pub total_supply: u128,
}

/// What a successful burn reports: the effective amount actually burned
/// (at most the caller's prior balance) and the new total supply.
#[derive(Clone, Copy, PartialEq, Eq, Structural, Debug)]
pub struct BurnOutcome {
    pub burned: u128,
    pub total_supply: u128,
}

/// The ledger: an issuance policy fixed at construction, the nonce that
/// assigns asset ids, and the three keyed stores.
pub struct Ledger {
    policy: Policy,
    nonce: AssetId,
    assets: Vec<AssetEntry>,
    balances: Vec<BalanceEntry>,
    metadata: Vec<MetadataEntry>,
}

impl Ledger {
    /// The issuance policy this ledger was built with.
    pub closed spec fn spec_policy(self) -> Policy {
        self.policy
    }

    /// The id the next created asset will receive.
    pub closed spec fn spec_nonce(self) -> AssetId {
        self.nonce
    }

    /// The rows of the asset store.
    pub closed spec fn assets_seq(self) -> Seq<AssetEntry> {
        self.assets@
    }

    /// The rows of the balance store.
    pub closed spec fn balances_seq(self) -> Seq<BalanceEntry> {
        self.balances@
    }

    /// The rows of the metadata store.
    pub closed spec fn metadata_seq(self) -> Seq<MetadataEntry> {
        self.metadata@
    }

    /// The details recorded for asset `id`, if it exists.
    pub open spec fn spec_asset(self, id: AssetId) -> Option<AssetDetails> {
        lookup_asset(self.assets_seq(), id)
    }

    /// The balance of `who` in asset `id`; absent cells read as zero.
    pub open spec fn spec_balance(self, id: AssetId, who: AccountId) -> u128 {
        balance_of(self.balances_seq(), id, who)
    }

    /// The metadata recorded for asset `id`, as `(name, symbol)` bytes.
    pub open spec fn spec_metadata(self, id: AssetId) -> Option<(Seq<u8>, Seq<u8>)> {
        lookup_metadata(self.metadata_seq(), id)
    }

    /// The ledger's invariant, established by `new` and preserved by every
    /// operation (creation excepted once the nonce has saturated):
    /// balance cells are stored at most once, every asset id ever issued is
    /// below the nonce, balances exist only under live assets, and each
    /// asset's supply equals the sum of its holders' balances.
    pub open spec fn wf(self) -> bool {
        &&& unique_balance_keys(self.balances_seq())
        &&& forall|id: AssetId|
            (#[trigger] lookup_asset(self.assets_seq(), id)) is Some ==> id < self.spec_nonce()
        &&& forall|id: AssetId, who: AccountId|
            (#[trigger] lookup_balance(self.balances_seq(), id, who)) is Some ==> lookup_asset(
                self.assets_seq(),
                id,
            ) is Some
        &&& forall|id: AssetId|
            (#[trigger] lookup_asset(self.assets_seq(), id)) matches Some(d) ==> d.supply
                == sum_balances(self.balances_seq(), id)
    }

    /// An empty ledger under the given policy: no assets, no balances, no
    /// metadata, and ids starting at zero.
    pub fn new(policy: Policy) -> (l: Ledger)
        ensures
            l.wf(),
            l.spec_policy() == policy,
            l.spec_nonce() == 0,
            forall|id: AssetId| (#[trigger] l.spec_asset(id)) is None,
            forall|id: AssetId, who: AccountId| #[trigger] l.spec_balance(id, who) == 0,
            forall|id: AssetId| (#[trigger] l.spec_metadata(id)) is None,
    {
        Ledger {
            policy,
            nonce: 0,
            assets: Vec::new(),
            balances: Vec::new(),
            metadata: Vec::new(),
        }
    }

    /// The policy this ledger enforces.
    pub fn policy(&self) -> (p: Policy)
        ensures
            p == self.spec_policy(),
    {
        self.policy
    }

    /// The id the next created asset will receive.
    pub fn nonce(&self) -> (n: AssetId)
        ensures
            n == self.spec_nonce(),
    {
        self.nonce
    }

    /// The details of asset `id`, if it exists.
    pub fn asset(&self, id: AssetId) -> (r: Option<AssetDetails>)
        ensures
            r == self.spec_asset(id),
    {
        match find_asset_index(&self.assets, id) {
            Some(i) => Some(self.assets[i].details),
            None => None,
        }
    }

    /// The holdings of `who` in asset `id`; zero when no cell is stored.
    pub fn account(&self, id: AssetId, who: AccountId) -> (r: u128)
        ensures
            r == self.spec_balance(id, who),
    {
        match find_balance_index(&self.balances, id, who) {
            Some(i) => self.balances[i].amount,
            None => 0,
        }
    }

    /// The metadata of asset `id`, if any has been set.
    pub fn metadata(&self, id: AssetId) -> (r: Option<&AssetMetadata>)
        ensures
            match r {
                Some(m) => self.spec_metadata(id) == Some((m.name@, m.symbol@)),
                None => self.spec_metadata(id) is None,
            },
    {
        match find_metadata_index(&self.metadata, id) {
            Some(i) => Some(&self.metadata[i].meta),
            None => None,
        }
    }

    /// Creates an empty asset class owned by `creator` under the owner-gated
    /// policy and returns its id.  Cannot fail; once the nonce has reached
    /// the largest id it stops advancing, an accepted terminal condition
    /// under which well-formedness is no longer claimed.
    pub fn create_asset(&mut self, creator: AccountId) -> (id: AssetId)
        requires
            old(self).wf(),
            old(self).spec_policy() == Policy::OwnerGated,
        ensures
            created(*old(self), *final(self), creator, id),
            old(self).spec_nonce() < u64::MAX ==> final(self).wf(),
    {
        let ghost pre = *self;
        let id = self.nonce;
        proof {
            if pre.spec_nonce() < u64::MAX {
                self.lemma_fresh_id_unused();
            }
        }
        upsert_asset(&mut self.assets, id, AssetDetails { owner: creator, supply: 0 });
        self.nonce = self.nonce.saturating_add(1);
        proof {
            if pre.spec_nonce() < u64::MAX {
                self.lemma_wf_after_create(pre, creator, id, 0);
            }
        }
        id
    }

    /// Creates an asset class under the self-issued policy, crediting its
    /// whole initial supply to `creator` in the same atomic step.  Fails
    /// with `NoSupply` when the requested supply is zero.
    pub fn create_asset_with_supply(&mut self, creator: AccountId, initial_supply: u128) -> (r:
        Result<AssetId, Error>)
        requires
            old(self).wf(),
            old(self).spec_policy() == Policy::SelfIssued,
        ensures
            r is Err ==> *final(self) == *old(self),
            r is Err <==> initial_supply == 0,
            r is Err ==> r == Err::<AssetId, Error>(Error::NoSupply),
            r matches Ok(id) ==> created_with_supply(
                *old(self),
                *final(self),
                creator,
                initial_supply,
                id,
            ),
            old(self).spec_nonce() < u64::MAX ==> final(self).wf(),
            r matches Ok(id) ==> (old(self).spec_nonce() < u64::MAX ==> final(self).spec_balance(
                id,
                creator,
            ) == initial_supply),
    {
        if initial_supply == 0 {
            return Err(Error::NoSupply);
        }
        let ghost pre = *self;
        let id = self.nonce;
        proof {
            if pre.spec_nonce() < u64::MAX {
                self.lemma_fresh_id_unused();
            }
        }
        upsert_asset(&mut self.assets, id, AssetDetails { owner: creator, supply: initial_supply });
        let credited = credit_balance(&mut self.balances, id, creator, initial_supply);
        self.nonce = self.nonce.saturating_add(1);
        proof {
            if pre.spec_nonce() < u64::MAX {
                assert(balance_of(pre.balances_seq(), id, creator) == 0);
                self.lemma_wf_after_create(pre, creator, id, initial_supply);
            }
        }
        Ok(id)
    }

    /// Replaces (or inserts) the metadata of `asset_id` unconditionally.
    /// Fails with `Unknown` for an absent asset and `NoPermission` when the
    /// caller is not its owner; setting the same values twice is a no-op in
    /// effect.
    pub fn set_metadata(
        &mut self,
        caller: AccountId,
        asset_id: AssetId,
        name: Vec<u8>,
        symbol: Vec<u8>,
    ) -> (r: Result<(), Error>)
        requires
            old(self).wf(),
            old(self).spec_policy() == Policy::OwnerGated,
        ensures
            final(self).wf(),
            r is Err ==> *final(self) == *old(self),
            r is Err <==> (old(self).spec_asset(asset_id) is None || old(self).spec_asset(
                asset_id,
            ).unwrap().owner != caller),
            old(self).spec_asset(asset_id) is None ==> r == Err::<(), Error>(Error::Unknown),
            (old(self).spec_asset(asset_id) matches Some(d) && d.owner != caller) ==> r == Err::<
                (),
                Error,
            >(Error::NoPermission),
            r is Ok ==> metadata_set(*old(self), *final(self), asset_id, name@, symbol@),
    {
        let d = match find_asset_index(&self.assets, asset_id) {
            None => {
                return Err(Error::Unknown);
            },
            Some(i) => self.assets[i].details,
        };
        if d.owner != caller {
            return Err(Error::NoPermission);
        }
        upsert_metadata(&mut self.metadata, asset_id, name, symbol);
        Ok(())
    }

    /// Mints `amount` units of `asset_id` (clamped at the numeric maximum)
    /// into `to`'s balance.  Fails with `Unknown` for an absent asset and
    /// `NoPermission` when the caller is not its owner.
    pub fn mint(&mut self, caller: AccountId, asset_id: AssetId, amount: u128, to: AccountId) -> (r:
        Result<MintOutcome, Error>)
        requires
            old(self).wf(),
            old(self).spec_policy() == Policy::OwnerGated,
        ensures
            final(self).wf(),
            r is Err ==> *final(self) == *old(self),
            r is Err <==> (old(self).spec_asset(asset_id) is None || old(self).spec_asset(
                asset_id,
            ).unwrap().owner != caller),
            old(self).spec_asset(asset_id) is None ==> r == Err::<MintOutcome, Error>(
                Error::Unknown,
            ),
            (old(self).spec_asset(asset_id) matches Some(d) && d.owner != caller) ==> r == Err::<
                MintOutcome,
                Error,
            >(Error::NoPermission),
            r matches Ok(out) ==> minted(*old(self), *final(self), asset_id, to, amount, out),
    {
        let ghost pre = *self;
        let d = match find_asset_index(&self.assets, asset_id) {
            None => {
                return Err(Error::Unknown);
            },
            Some(i) => self.assets[i].details,
        };
        if d.owner != caller {
            return Err(Error::NoPermission);
        }
        let new_supply = d.supply.saturating_add(amount);
        let minted_amount = new_supply - d.supply;
        proof {
            lemma_balance_le_sum(self.balances@, asset_id, to);
            assert(sum_balances(pre.balances_seq(), asset_id) == d.supply as int);
        }
        upsert_asset(&mut self.assets, asset_id, AssetDetails { owner: d.owner, supply: new_supply });
        let credited = credit_balance(&mut self.balances, asset_id, to, minted_amount);
        proof {
            assert(credited == minted_amount);
            self.lemma_wf_after_move(pre, asset_id, to, new_supply);
        }
        Ok(MintOutcome { minted: minted_amount, total_supply: new_supply })
    }

    /// Burns up to `amount` units of `asset_id` from the caller's balance,
    /// clamping at zero, and decrements the supply by exactly the amount
    /// burned.  Fails with `Unknown` for an absent asset; under the
    /// self-issued policy a zero prior balance fails with `NotOwned`.
    pub fn burn(&mut self, caller: AccountId, asset_id: AssetId, amount: u128) -> (r: Result<
        BurnOutcome,
        Error,
    >)
        requires
            old(self).wf(),
        ensures
            final(self).wf(),
            r is Err ==> *final(self) == *old(self),
            r is Err <==> (old(self).spec_asset(asset_id) is None || (old(self).spec_policy()
                == Policy::SelfIssued && old(self).spec_balance(asset_id, caller) == 0)),
            old(self).spec_asset(asset_id) is None ==> r == Err::<BurnOutcome, Error>(
                Error::Unknown,
            ),
            (old(self).spec_asset(asset_id) is Some && old(self).spec_policy()
                == Policy::SelfIssued && old(self).spec_balance(asset_id, caller) == 0) ==> r
                == Err::<BurnOutcome, Error>(Error::NotOwned),
            r matches Ok(out) ==> burned(*old(self), *final(self), caller, asset_id, amount, out),
    {
        let ghost pre = *self;
        let d = match find_asset_index(&self.assets, asset_id) {
            None => {
                return Err(Error::Unknown);
            },
            Some(i) => self.assets[i].details,
        };
        if self.policy == Policy::SelfIssued && self.account(asset_id, caller) == 0 {
            return Err(Error::NotOwned);
        }
        proof {
            lemma_balance_le_sum(self.balances@, asset_id, caller);
            assert(sum_balances(pre.balances_seq(), asset_id) == d.supply as int);
        }
        let debited = debit_balance(&mut self.balances, asset_id, caller, amount);
        let new_supply = d.supply - debited;
        upsert_asset(&mut self.assets, asset_id, AssetDetails { owner: d.owner, supply: new_supply });
        proof {
            self.lemma_wf_after_move(pre, asset_id, caller, new_supply);
        }
        Ok(BurnOutcome { burned: debited, total_supply: new_supply })
    }

    /// Moves up to `amount` units of `asset_id` from the caller to `to`,
    /// clamping at the caller's balance, and returns the effective amount
    /// moved.  Fails with `Unknown` for an absent asset; under the
    /// self-issued policy a zero prior balance fails with `NotOwned`.
    pub fn transfer(&mut self, caller: AccountId, asset_id: AssetId, amount: u128, to: AccountId) -> (r:
        Result<u128, Error>)
        requires
            old(self).wf(),
        ensures
            final(self).wf(),
            r is Err ==> *final(self) == *old(self),
            r is Err <==> (old(self).spec_asset(asset_id) is None || (old(self).spec_policy()
                == Policy::SelfIssued && old(self).spec_balance(asset_id, caller) == 0)),
            old(self).spec_asset(asset_id) is None ==> r == Err::<u128, Error>(Error::Unknown),
            (old(self).spec_asset(asset_id) is Some && old(self).spec_policy()
                == Policy::SelfIssued && old(self).spec_balance(asset_id, caller) == 0) ==> r
                == Err::<u128, Error>(Error::NotOwned),
            r matches Ok(effective) ==> transferred(
                *old(self),
                *final(self),
                caller,
                asset_id,
                amount,
                to,
                effective,
            ),
    {
        let ghost pre = *self;
        let d = match find_asset_index(&self.assets, asset_id) {
            None => {
                return Err(Error::Unknown);
            },
            Some(i) => self.assets[i].details,
        };
        if self.policy == Policy::SelfIssued && self.account(asset_id, caller) == 0 {
            return Err(Error::NotOwned);
        }
        proof {
            lemma_balance_le_sum(self.balances@, asset_id, caller);
            assert(sum_balances(pre.balances_seq(), asset_id) == d.supply as int);
        }
        let debited = debit_balance(&mut self.balances, asset_id, caller, amount);
        proof {
            lemma_balance_le_sum(self.balances@, asset_id, to);
        }
        let credited = credit_balance(&mut self.balances, asset_id, to, debited);
        proof {
            assert(credited == debited);
            self.lemma_wf_after_move(pre, asset_id, to, d.supply);
        }
        Ok(debited)
    }

    /// The id about to be issued has no details and no balance cells, so
    /// its balance total is zero.
    proof fn lemma_fresh_id_unused(&self)
        requires
            self.wf(),
            self.spec_nonce() < u64::MAX,
        ensures
            lookup_asset(self.assets_seq(), self.spec_nonce()) is None,
            sum_balances(self.balances_seq(), self.spec_nonce()) == 0,
    {
        let id = self.spec_nonce();
        assert(lookup_asset(self.assets_seq(), id) is None);
        assert forall|w: AccountId| (#[trigger] lookup_balance(self.balances_seq(), id, w))
            is None by {
            if lookup_balance(self.balances_seq(), id, w) is Some {
                assert(lookup_asset(self.assets_seq(), id) is Some);
            }
        }
        lemma_no_balance_sum_zero(self.balances_seq(), id);
    }

    /// Re-establishes `wf` after either creation operation, given that the
    /// nonce had not yet saturated in `pre`.
    proof fn lemma_wf_after_create(&self, pre: Ledger, creator: AccountId, id: AssetId, supply: u128)
        requires
            pre.wf(),
            pre.spec_nonce() < u64::MAX,
            id == pre.spec_nonce(),
            self.spec_nonce() == pre.spec_nonce() + 1,
            forall|k: AssetId| #[trigger]
                lookup_asset(self.assets_seq(), k) == if k == id {
                    Some(AssetDetails { owner: creator, supply })
                } else {
                    lookup_asset(pre.assets_seq(), k)
                },
            unique_balance_keys(self.balances_seq()),
            forall|a: AssetId, w: AccountId| #[trigger]
                lookup_balance(self.balances_seq(), a, w) == if a == id && w == creator
                    && supply > 0 {
                    Some(supply)
                } else {
                    lookup_balance(pre.balances_seq(), a, w)
                },
            forall|a: AssetId| #[trigger]
                sum_balances(self.balances_seq(), a) == sum_balances(pre.balances_seq(), a) + if a
                    == id {
                    supply as int
                } else {
                    0
                },
            sum_balances(pre.balances_seq(), id) == 0,
        ensures
            self.wf(),
    {
        assert forall|k: AssetId| (#[trigger] lookup_asset(self.assets_seq(), k)) is Some
            implies k < self.spec_nonce() by {
            assert(lookup_asset(self.assets_seq(), k) == if k == id {
                Some(AssetDetails { owner: creator, supply })
            } else {
                lookup_asset(pre.assets_seq(), k)
            });
        }
        assert forall|a: AssetId, w: AccountId|
            (#[trigger] lookup_balance(self.balances_seq(), a, w)) is Some implies lookup_asset(
            self.assets_seq(),
            a,
        ) is Some by {
            assert(lookup_balance(self.balances_seq(), a, w) == if a == id && w == creator
                && supply > 0 {
                Some(supply)
            } else {
                lookup_balance(pre.balances_seq(), a, w)
            });
            assert(lookup_asset(self.assets_seq(), a) == if a == id {
                Some(AssetDetails { owner: creator, supply })
            } else {
                lookup_asset(pre.assets_seq(), a)
            });
        }
        assert forall|k: AssetId| (#[trigger] lookup_asset(self.assets_seq(), k)) is Some
            implies lookup_asset(self.assets_seq(), k).unwrap().supply == sum_balances(
            self.balances_seq(),
            k,
        ) by {
            assert(lookup_asset(self.assets_seq(), k) == if k == id {
                Some(AssetDetails { owner: creator, supply })
            } else {
                lookup_asset(pre.assets_seq(), k)
            });
            assert(sum_balances(self.balances_seq(), k) == sum_balances(pre.balances_seq(), k)
                + if k == id {
                supply as int
            } else {
                0
            });
        }
    }

    /// Re-establishes `wf` after a mint, burn or transfer: asset `id` (which
    /// existed before) now records `new_supply`, its balance total moved to
    /// exactly that value, and at most the `(id, acct)` cell is newly stored.
    proof fn lemma_wf_after_move(
        &self,
        pre: Ledger,
        id: AssetId,
        acct: AccountId,
        new_supply: u128,
    )
        requires
            pre.wf(),
            self.spec_nonce() == pre.spec_nonce(),
            lookup_asset(pre.assets_seq(), id) is Some,
            unique_balance_keys(self.balances_seq()),
            forall|k: AssetId| #[trigger]
                lookup_asset(self.assets_seq(), k) == if k == id {
                    Some(
                        AssetDetails {
                            owner: lookup_asset(pre.assets_seq(), id).unwrap().owner,
                            supply: new_supply,
                        },
                    )
                } else {
                    lookup_asset(pre.assets_seq(), k)
                },
            forall|a: AssetId, w: AccountId|
                (#[trigger] lookup_balance(self.balances_seq(), a, w)) is Some ==> (lookup_balance(
                    pre.balances_seq(),
                    a,
                    w,
                ) is Some || (a == id && w == acct)),
            forall|a: AssetId| #[trigger]
                sum_balances(self.balances_seq(), a) == if a == id {
                    new_supply as int
                } else {
                    sum_balances(pre.balances_seq(), a)
                },
        ensures
            self.wf(),
    {
        assert forall|k: AssetId| (#[trigger] lookup_asset(self.assets_seq(), k)) is Some
            implies k < self.spec_nonce() by {
            assert(lookup_asset(self.assets_seq(), k) == if k == id {
                Some(
                    AssetDetails {
                        owner: lookup_asset(pre.assets_seq(), id).unwrap().owner,
                        supply: new_supply,
                    },
                )
            } else {
                lookup_asset(pre.assets_seq(), k)
            });
            assert(lookup_asset(pre.assets_seq(), k) is Some);
        }
        assert forall|a: AssetId, w: AccountId|
            (#[trigger] lookup_balance(self.balances_seq(), a, w)) is Some implies lookup_asset(
            self.assets_seq(),
            a,
        ) is Some by {
            assert(lookup_asset(self.assets_seq(), a) == if a == id {
                Some(
                    AssetDetails {
                        owner: lookup_asset(pre.assets_seq(), id).unwrap().owner,
                        supply: new_supply,
                    },
                )
            } else {
                lookup_asset(pre.assets_seq(), a)
            });
            if !(a == id && w == acct) {
                assert(lookup_balance(pre.balances_seq(), a, w) is Some);
            }
        }
        assert forall|k: AssetId| (#[trigger] lookup_asset(self.assets_seq(), k)) is Some
            implies lookup_asset(self.assets_seq(), k).unwrap().supply == sum_balances(
            self.balances_seq(),
            k,
        ) by {
            assert(lookup_asset(self.assets_seq(), k) == if k == id {
                Some(
                    AssetDetails {
                        owner: lookup_asset(pre.assets_seq(), id).unwrap().owner,
                        supply: new_supply,
                    },
                )
            } else {
                lookup_asset(pre.assets_seq(), k)
            });
            assert(sum_balances(self.balances_seq(), k) == if k == id {
                new_supply as int
            } else {
                sum_balances(pre.balances_seq(), k)
            });
        }
    }
}

/// How a successful `create_asset` call changes the ledger: `id` is the old
/// nonce, the nonce advances by one (saturating), the new asset belongs to
/// `creator` with zero supply, and nothing else moves.
pub open spec fn created(pre: Ledger, post: Ledger, creator: AccountId, id: AssetId) -> bool {
    &&& id == pre.spec_nonce()
    &&& post.spec_nonce() == pre.spec_nonce().saturating_add(1)
    &&& post.spec_policy() == pre.spec_policy()
    &&& forall|k: AssetId| #[trigger]
        post.spec_asset(k) == if k == id {
            Some(AssetDetails { owner: creator, supply: 0 })
        } else {
            pre.spec_asset(k)
        }
    &&& post.balances_seq() == pre.balances_seq()
    &&& post.metadata_seq() == pre.metadata_seq()
}

/// How a successful `create_asset_with_supply` call changes the ledger: as
/// `created`, except that the new asset carries `supply` units, all credited
/// to the creator's balance in the same atomic step.
pub open spec fn created_with_supply(
    pre: Ledger,
    post: Ledger,
    creator: AccountId,
    supply: u128,
    id: AssetId,
) -> bool {
    &&& id == pre.spec_nonce()
    &&& post.spec_nonce() == pre.spec_nonce().saturating_add(1)
    &&& post.spec_policy() == pre.spec_policy()
    &&& forall|k: AssetId| #[trigger]
        post.spec_asset(k) == if k == id {
            Some(AssetDetails { owner: creator, supply })
        } else {
            pre.spec_asset(k)
        }
    &&& forall|a: AssetId, w: AccountId| #[trigger]
        post.spec_balance(a, w) == if a == id && w == creator {
            pre.spec_balance(a, w).saturating_add(supply)
        } else {
            pre.spec_balance(a, w)
        }
    &&& post.metadata_seq() == pre.metadata_seq()
}

/// How a successful `set_metadata` call changes the ledger: the asset's
/// metadata is replaced (or inserted) and nothing else moves.
pub open spec fn metadata_set(
    pre: Ledger,
    post: Ledger,
    id: AssetId,
    name: Seq<u8>,
    symbol: Seq<u8>,
) -> bool {
    &&& post.spec_nonce() == pre.spec_nonce()
    &&& post.spec_policy() == pre.spec_policy()
    &&& post.assets_seq() == pre.assets_seq()
    &&& post.balances_seq() == pre.balances_seq()
    &&& forall|k: AssetId| #[trigger]
        post.spec_metadata(k) == if k == id {
            Some((name, symbol))
        } else {
            pre.spec_metadata(k)
        }
}

/// How a successful `mint` call changes the ledger: the supply grows by
/// `amount`, clamped at the numeric maximum; the effective minted amount is
/// credited to `to`'s balance (provably without further clamping); nothing
/// else moves.
pub open spec fn minted(
    pre: Ledger,
    post: Ledger,
    id: AssetId,
    to: AccountId,
    amount: u128,
    out: MintOutcome,
) -> bool {
    let d = pre.spec_asset(id).unwrap();
    let new_supply = d.supply.saturating_add(amount);
    &&& out.minted == new_supply - d.supply
    &&& out.total_supply == new_supply
    &&& post.spec_nonce() == pre.spec_nonce()
    &&& post.spec_policy() == pre.spec_policy()
    &&& forall|k: AssetId| #[trigger]
        post.spec_asset(k) == if k == id {
            Some(AssetDetails { owner: d.owner, supply: new_supply })
        } else {
            pre.spec_asset(k)
        }
    &&& pre.spec_balance(id, to) + out.minted <= u128::MAX
    &&& forall|a: AssetId, w: AccountId| #[trigger]
        post.spec_balance(a, w) == if a == id && w == to {
            (pre.spec_balance(a, w) + out.minted) as u128
        } else {
            pre.spec_balance(a, w)
        }
    &&& post.metadata_seq() == pre.metadata_seq()
}

/// How a successful `burn` call changes the ledger: the caller's balance
/// drops by `amount`, clamped at zero; the effective burned amount is
/// carried forward into the supply decrement (provably safe, since a
/// balance never exceeds its asset's supply); nothing else moves.
pub open spec fn burned(
    pre: Ledger,
    post: Ledger,
    caller: AccountId,
    id: AssetId,
    amount: u128,
    out: BurnOutcome,
) -> bool {
    let d = pre.spec_asset(id).unwrap();
    let b0 = pre.spec_balance(id, caller);
    &&& out.burned == if amount <= b0 {
        amount
    } else {
        b0
    }
    &&& out.total_supply == d.supply - out.burned
    &&& post.spec_nonce() == pre.spec_nonce()
    &&& post.spec_policy() == pre.spec_policy()
    &&& forall|k: AssetId| #[trigger]
        post.spec_asset(k) == if k == id {
            Some(AssetDetails { owner: d.owner, supply: (d.supply - out.burned) as u128 })
        } else {
            pre.spec_asset(k)
        }
    &&& forall|a: AssetId, w: AccountId| #[trigger]
        post.spec_balance(a, w) == if a == id && w == caller {
            (b0 - out.burned) as u128
        } else {
            pre.spec_balance(a, w)
        }
    &&& post.metadata_seq() == pre.metadata_seq()
}

/// How a successful `transfer` call changes the ledger: the caller's
/// balance drops by `amount`, clamped at zero, and exactly the effective
/// amount reaches `to`; supplies, assets and metadata stay put.  A transfer
/// to oneself moves nothing in effect.
pub open spec fn transferred(
    pre: Ledger,
    post: Ledger,
    caller: AccountId,
    id: AssetId,
    amount: u128,
    to: AccountId,
    effective: u128,
) -> bool {
    let b0 = pre.spec_balance(id, caller);
    &&& effective == if amount <= b0 {
        amount
    } else {
        b0
    }
    &&& post.spec_nonce() == pre.spec_nonce()
    &&& post.spec_policy() == pre.spec_policy()
    &&& post.assets_seq() == pre.assets_seq()
    &&& forall|a: AssetId, w: AccountId|
        (#[trigger] post.spec_balance(a, w)) as int == pre.spec_balance(a, w) + (if a == id && w
            == to {
            effective as int
        } else {
            0
        }) - (if a == id && w == caller {
            effective as int
        } else {
            0
        })
    &&& post.metadata_seq() == pre.metadata_seq()
}

/// The index of the last row for `id`, or `None` when the id is absent.
fn find_asset_index(assets: &Vec<AssetEntry>, id: AssetId) -> (r: Option<usize>)
    ensures
        match r {
            Some(i) => {
                &&& i < assets@.len()
                &&& assets@[i as int].id == id
                &&& forall|j: int| i < j < assets@.len() ==> assets@[j].id != id
                &&& lookup_asset(assets@, id) == Some(assets@[i as int].details)
            },
            None => {
                &&& forall|j: int| 0 <= j < assets@.len() ==> assets@[j].id != id
                &&& lookup_asset(assets@, id) is None
            },
        },
{
    let mut j: usize = assets.len();
    while j > 0
        invariant
            j <= assets@.len(),
            forall|k: int| j <= k < assets@.len() ==> assets@[k].id != id,
        decreases j,
    {
        j = j - 1;
        if assets[j].id == id {
            proof {
                lemma_lookup_asset_at(assets@, j as int, id);
            }
            return Some(j);
        }
    }
    proof {
        lemma_lookup_asset_none(assets@, id);
    }
    None
}

/// The index of the last row for the `(id, who)` cell, or `None`.
fn find_balance_index(balances: &Vec<BalanceEntry>, id: AssetId, who: AccountId) -> (r: Option<
    usize,
>)
    ensures
        match r {
            Some(i) => {
                &&& i < balances@.len()
                &&& balances@[i as int].asset == id
                &&& balances@[i as int].account == who
                &&& forall|j: int|
                    i < j < balances@.len() ==> !(balances@[j].asset == id && balances@[j].account
                        == who)
                &&& lookup_balance(balances@, id, who) == Some(balances@[i as int].amount)
            },
            None => {
                &&& forall|j: int|
                    0 <= j < balances@.len() ==> !(balances@[j].asset == id
                        && balances@[j].account == who)
                &&& lookup_balance(balances@, id, who) is None
            },
        },
{
    let mut j: usize = balances.len();
    while j > 0
        invariant
            j <= balances@.len(),
            forall|k: int|
                j <= k < balances@.len() ==> !(balances@[k].asset == id && balances@[k].account
                    == who),
        decreases j,
    {
        j = j - 1;
        if balances[j].asset == id && balances[j].account == who {
            proof {
                lemma_lookup_balance_at(balances@, j as int, id, who);
            }
            return Some(j);
        }
    }
    proof {
        lemma_lookup_balance_none(balances@, id, who);
    }
    None
}

/// The index of the last metadata row for `id`, or `None`.
fn find_metadata_index(metadata: &Vec<MetadataEntry>, id: AssetId) -> (r: Option<usize>)
    ensures
        match r {
            Some(i) => {
                &&& i < metadata@.len()
                &&& metadata@[i as int].id == id
                &&& forall|j: int| i < j < metadata@.len() ==> metadata@[j].id != id
                &&& lookup_metadata(metadata@, id) == Some(
                    (metadata@[i as int].meta.name@, metadata@[i as int].meta.symbol@),
                )
            },
            None => {
                &&& forall|j: int| 0 <= j < metadata@.len() ==> metadata@[j].id != id
                &&& lookup_metadata(metadata@, id) is None
            },
        },
{
    let mut j: usize = metadata.len();
    while j > 0
        invariant
            j <= metadata@.len(),
            forall|k: int| j <= k < metadata@.len() ==> metadata@[k].id != id,
        decreases j,
    {
        j = j - 1;
        if metadata[j].id == id {
            proof {
                lemma_lookup_metadata_at(metadata@, j as int, id);
            }
            return Some(j);
        }
    }
    proof {
        lemma_lookup_metadata_none(metadata@, id);
    }
    None
}

/// Binds `id` to `details`, rewriting its row in place or appending one.
fn upsert_asset(assets: &mut Vec<AssetEntry>, id: AssetId, details: AssetDetails)
    ensures
        forall|k: AssetId| #[trigger]
            lookup_asset(final(assets)@, k) == if k == id {
                Some(details)
            } else {
                lookup_asset(old(assets)@, k)
            },
{
    let e = AssetEntry { id, details };
    match find_asset_index(assets, id) {
        Some(i) => {
            proof {
                lemma_lookup_asset_update(assets@, i as int, e);
            }
            assets[i] = e;
        },
        None => {
            proof {
                lemma_lookup_asset_push(assets@, e);
            }
            assets.push(e);
        },
    }
}

/// Binds `id` to the given metadata, rewriting its row or appending one.
fn upsert_metadata(metadata: &mut Vec<MetadataEntry>, id: AssetId, name: Vec<u8>, symbol: Vec<u8>)
    ensures
        forall|k: AssetId| #[trigger]
            lookup_metadata(final(metadata)@, k) == if k == id {
                Some((name@, symbol@))
            } else {
                lookup_metadata(old(metadata)@, k)
            },
{
    let e = MetadataEntry { id, meta: AssetMetadata { name, symbol } };
    match find_metadata_index(metadata, id) {
        Some(i) => {
            proof {
                lemma_lookup_metadata_update(metadata@, i as int, e);
            }
            metadata[i] = e;
        },
        None => {
            proof {
                lemma_lookup_metadata_push(metadata@, e);
            }
            metadata.push(e);
        },
    }
}

/// Adds `amount` to the `(id, who)` cell, saturating at the numeric
/// maximum, and returns the amount actually credited.
fn credit_balance(balances: &mut Vec<BalanceEntry>, id: AssetId, who: AccountId, amount: u128) -> (credited: u128)
    requires
        unique_balance_keys(old(balances)@),
    ensures
        unique_balance_keys(final(balances)@),
        credited == balance_of(old(balances)@, id, who).saturating_add(amount) - balance_of(
            old(balances)@,
            id,
            who,
        ),
        forall|a: AssetId, w: AccountId| #[trigger]
            lookup_balance(final(balances)@, a, w) == if a == id && w == who {
                Some(balance_of(old(balances)@, id, who).saturating_add(amount))
            } else {
                lookup_balance(old(balances)@, a, w)
            },
        forall|a: AssetId, w: AccountId| #[trigger]
            balance_of(final(balances)@, a, w) == if a == id && w == who {
                balance_of(old(balances)@, id, who).saturating_add(amount)
            } else {
                balance_of(old(balances)@, a, w)
            },
        forall|a: AssetId| #[trigger]
            sum_balances(final(balances)@, a) == sum_balances(old(balances)@, a) + if a == id {
                credited as int
            } else {
                0
            },
{
    match find_balance_index(balances, id, who) {
        Some(i) => {
            let old_amt = balances[i].amount;
            let new_amt = old_amt.saturating_add(amount);
            let e = BalanceEntry { asset: id, account: who, amount: new_amt };
            proof {
                lemma_lookup_balance_update(balances@, i as int, e);
                lemma_sum_balances_update(balances@, i as int, e);
                lemma_unique_keys_update(balances@, i as int, e);
            }
            balances[i] = e;
            new_amt - old_amt
        },
        None => {
            let e = BalanceEntry { asset: id, account: who, amount };
            proof {
                lemma_lookup_balance_push(balances@, e);
                lemma_sum_balances_push(balances@, e);
                lemma_unique_keys_push(balances@, e);
            }
            balances.push(e);
            amount
        },
    }
}

/// Subtracts up to `amount` from the `(id, who)` cell, clamping at zero,
/// and returns the amount actually debited.  A cell never written stays
/// absent: debiting it moves nothing.
fn debit_balance(balances: &mut Vec<BalanceEntry>, id: AssetId, who: AccountId, amount: u128) -> (debited: u128)
    requires
        unique_balance_keys(old(balances)@),
    ensures
        unique_balance_keys(final(balances)@),
        debited == if amount <= balance_of(old(balances)@, id, who) {
            amount
        } else {
            balance_of(old(balances)@, id, who)
        },
        forall|a: AssetId, w: AccountId| #[trigger]
            lookup_balance(final(balances)@, a, w) == if a == id && w == who && lookup_balance(
                old(balances)@,
                a,
                w,
            ) is Some {
                Some((balance_of(old(balances)@, id, who) - debited) as u128)
            } else {
                lookup_balance(old(balances)@, a, w)
            },
        forall|a: AssetId, w: AccountId| #[trigger]
            balance_of(final(balances)@, a, w) == if a == id && w == who {
                (balance_of(old(balances)@, id, who) - debited) as u128
            } else {
                balance_of(old(balances)@, a, w)
            },
        forall|a: AssetId| #[trigger]
            sum_balances(final(balances)@, a) == sum_balances(old(balances)@, a) - if a == id {
                debited as int
            } else {
                0
            },
{
    match find_balance_index(balances, id, who) {
        Some(i) => {
            let old_amt = balances[i].amount;
            let new_amt = old_amt.saturating_sub(amount);
            let e = BalanceEntry { asset: id, account: who, amount: new_amt };
            proof {
                lemma_lookup_balance_update(balances@, i as int, e);
                lemma_sum_balances_update(balances@, i as int, e);
                lemma_unique_keys_update(balances@, i as int, e);
            }
            balances[i] = e;
            old_amt - new_amt
        },
        None => 0,
    }
}

} // verus!
