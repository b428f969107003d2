//! The mathematical model of the ledger's keyed stores.
//!
//! Each store is held as a vector of entries; a key maps to the value of the
//! last entry carrying it, and an absent key maps to `None` (for balances,
//! to zero).  The spec functions here define lookup and per-asset summation
//! over those entry sequences, and the lemmas relate them to the index-wise
//! facts that the executable scan loops establish.

use vstd::prelude::*;

verus! {

/// Identifies one asset class; assigned by the ledger's nonce.
pub type AssetId = u64;

/// An opaque, comparable account identity, resolved by the host.
pub type AccountId = u64;

/// Which issuance rule a ledger instance follows.
#[derive(Clone, Copy, PartialEq, Eq, Structural, Debug)]
pub enum Policy {
    /// Assets start empty; only the owner may mint afterwards.
    OwnerGated,
    /// Assets are created with their whole supply; no later minting,
    /// and burn/transfer demand a positive prior balance.
    SelfIssued,
}

/// Why an operation was refused.  No failing operation changes any state.
#[derive(Clone, Copy, PartialEq, Eq, Structural, Debug)]
pub enum Error {
    /// The asset id has no details on record.
    Unknown,
    /// The caller is not the asset's owner where ownership is required.
    NoPermission,
    /// The caller's balance is zero where a positive balance is required.
    NotOwned,
    /// Asset creation was requested with a zero initial supply.
    NoSupply,
}

/// Per-asset record: the minting authority (or creator of record) and the
/// total outstanding units.
#[derive(Clone, Copy, PartialEq, Eq, Structural, Debug)]
pub struct AssetDetails {
    pub owner: AccountId,
    pub supply: u128,
}

/// One row of the asset store.
#[derive(Clone, Copy, PartialEq, Eq, Structural, Debug)]
pub struct AssetEntry {
    pub id: AssetId,
    pub details: AssetDetails,
}

/// One row of the balance store: holdings of `account` in asset `asset`.
#[derive(Clone, Copy, PartialEq, Eq, Structural, Debug)]
pub struct BalanceEntry {
    pub asset: AssetId,
    pub account: AccountId,
    pub amount: u128,
}

/// Purely descriptive asset metadata; participates in no invariant.
#[derive(Debug)]
pub struct AssetMetadata {
    pub name: Vec<u8>,
    pub symbol: Vec<u8>,
}

/// One row of the metadata store.
#[derive(Debug)]
pub struct MetadataEntry {
    pub id: AssetId,
    pub meta: AssetMetadata,
}

/// The details recorded for `id`: the last matching entry wins.
pub open spec fn lookup_asset(s: Seq<AssetEntry>, id: AssetId) -> Option<AssetDetails>
    decreases s.len(),
{
    if s.len() == 0 {
        None
    } else if s.last().id == id {
        Some(s.last().details)
    } else {
        lookup_asset(s.drop_last(), id)
    }
}

/// The stored balance entry for `(id, who)`, if one exists.
pub open spec fn lookup_balance(s: Seq<BalanceEntry>, id: AssetId, who: AccountId) -> Option<
    u128,
>
    decreases s.len(),
{
    if s.len() == 0 {
        None
    } else if s.last().asset == id && s.last().account == who {
        Some(s.last().amount)
    } else {
        lookup_balance(s.drop_last(), id, who)
    }
}

/// The balance of `(id, who)` under default-value semantics: absent is zero.
pub open spec fn balance_of(s: Seq<BalanceEntry>, id: AssetId, who: AccountId) -> u128 {
    match lookup_balance(s, id, who) {
        Some(a) => a,
        None => 0,
    }
}

/// The metadata recorded for `id`, as byte sequences `(name, symbol)`.
pub open spec fn lookup_metadata(s: Seq<MetadataEntry>, id: AssetId) -> Option<
    (Seq<u8>, Seq<u8>),
>
    decreases s.len(),
{
    if s.len() == 0 {
        None
    } else if s.last().id == id {
        Some((s.last().meta.name@, s.last().meta.symbol@))
    } else {
        lookup_metadata(s.drop_last(), id)
    }
}

/// What one balance row contributes to asset `id`'s total.
pub open spec fn entry_contrib(e: BalanceEntry, id: AssetId) -> int {
    if e.asset == id {
        e.amount as int
    } else {
        0
    }
}

/// The sum of every balance row held under asset `id`.
pub open spec fn sum_balances(s: Seq<BalanceEntry>, id: AssetId) -> int
    decreases s.len(),
{
    if s.len() == 0 {
        0
    } else {
        sum_balances(s.drop_last(), id) + entry_contrib(s.last(), id)
    }
}

/// Two balance rows address the same `(asset, account)` cell.
pub open spec fn same_key(a: BalanceEntry, b: BalanceEntry) -> bool {
    a.asset == b.asset && a.account == b.account
}

/// No `(asset, account)` cell is stored twice, so `sum_balances` really is
/// the sum of the balances that `balance_of` reports.
pub open spec fn unique_balance_keys(s: Seq<BalanceEntry>) -> bool {
    forall|i: int, j: int| 0 <= i < j < s.len() ==> !same_key(#[trigger] s[i], #[trigger] s[j])
}

/// A match at `i` with no later match is the one that `lookup_asset` returns.
pub proof fn lemma_lookup_asset_at(s: Seq<AssetEntry>, i: int, id: AssetId)
    requires
        0 <= i < s.len(),
        s[i].id == id,
        forall|j: int| i < j < s.len() ==> s[j].id != id,
    ensures
        lookup_asset(s, id) == Some(s[i].details),
    decreases s.len(),
{
    if i < s.len() - 1 {
        lemma_lookup_asset_at(s.drop_last(), i, id);
    }
}

/// No match anywhere means `lookup_asset` reports the id as absent.
pub proof fn lemma_lookup_asset_none(s: Seq<AssetEntry>, id: AssetId)
    requires
        forall|j: int| 0 <= j < s.len() ==> s[j].id != id,
    ensures
        lookup_asset(s, id) is None,
    decreases s.len(),
{
    if s.len() > 0 {
        lemma_lookup_asset_none(s.drop_last(), id);
    }
}

proof fn lemma_lookup_asset_update_other(s: Seq<AssetEntry>, i: int, e: AssetEntry, k: AssetId)
    requires
        0 <= i < s.len(),
        s[i].id == e.id,
        k != e.id,
    ensures
        lookup_asset(s.update(i, e), k) == lookup_asset(s, k),
    decreases s.len(),
{
    let t = s.update(i, e);
    if i == s.len() - 1 {
        assert(t.drop_last() =~= s.drop_last());
    } else {
        assert(t.drop_last() =~= s.drop_last().update(i, e));
        lemma_lookup_asset_update_other(s.drop_last(), i, e, k);
    }
}

/// Overwriting the last matching row rebinds its id and leaves every other
/// id's lookup unchanged.
pub proof fn lemma_lookup_asset_update(s: Seq<AssetEntry>, i: int, e: AssetEntry)
    requires
        0 <= i < s.len(),
        s[i].id == e.id,
        forall|j: int| i < j < s.len() ==> s[j].id != e.id,
    ensures
        forall|k: AssetId| #[trigger]
            lookup_asset(s.update(i, e), k) == if k == e.id {
                Some(e.details)
            } else {
                lookup_asset(s, k)
            },
{
    let t = s.update(i, e);
    assert forall|k: AssetId| #[trigger]
        lookup_asset(t, k) == if k == e.id {
            Some(e.details)
        } else {
            lookup_asset(s, k)
        } by {
        if k == e.id {
            lemma_lookup_asset_at(t, i, k);
        } else {
            lemma_lookup_asset_update_other(s, i, e, k);
        }
    }
}

/// Appending a row binds its id and leaves every other id's lookup unchanged.
pub proof fn lemma_lookup_asset_push(s: Seq<AssetEntry>, e: AssetEntry)
    ensures
        forall|k: AssetId| #[trigger]
            lookup_asset(s.push(e), k) == if k == e.id {
                Some(e.details)
            } else {
                lookup_asset(s, k)
            },
{
    assert(s.push(e).drop_last() =~= s);
    assert forall|k: AssetId| #[trigger]
        lookup_asset(s.push(e), k) == if k == e.id {
            Some(e.details)
        } else {
            lookup_asset(s, k)
        } by {
        assert(s.push(e).last() == e);
    }
}

/// A match at `i` with no later match is the one that `lookup_balance` returns.
pub proof fn lemma_lookup_balance_at(s: Seq<BalanceEntry>, i: int, id: AssetId, who: AccountId)
    requires
        0 <= i < s.len(),
        s[i].asset == id,
        s[i].account == who,
        forall|j: int| i < j < s.len() ==> !(s[j].asset == id && s[j].account == who),
    ensures
        lookup_balance(s, id, who) == Some(s[i].amount),
    decreases s.len(),
{
    if i < s.len() - 1 {
        lemma_lookup_balance_at(s.drop_last(), i, id, who);
    }
}

/// No match anywhere means the `(id, who)` cell is absent.
pub proof fn lemma_lookup_balance_none(s: Seq<BalanceEntry>, id: AssetId, who: AccountId)
    requires
        forall|j: int| 0 <= j < s.len() ==> !(s[j].asset == id && s[j].account == who),
    ensures
        lookup_balance(s, id, who) is None,
    decreases s.len(),
{
    if s.len() > 0 {
        lemma_lookup_balance_none(s.drop_last(), id, who);
    }
}

proof fn lemma_lookup_balance_update_other(
    s: Seq<BalanceEntry>,
    i: int,
    e: BalanceEntry,
    id: AssetId,
    who: AccountId,
)
    requires
        0 <= i < s.len(),
        same_key(s[i], e),
        !(e.asset == id && e.account == who),
    ensures
        lookup_balance(s.update(i, e), id, who) == lookup_balance(s, id, who),
    decreases s.len(),
{
    let t = s.update(i, e);
    if i == s.len() - 1 {
        assert(t.drop_last() =~= s.drop_last());
    } else {
        assert(t.drop_last() =~= s.drop_last().update(i, e));
        lemma_lookup_balance_update_other(s.drop_last(), i, e, id, who);
    }
}

/// Overwriting the last row of a cell rebinds that cell and leaves every
/// other cell's lookup unchanged.
pub proof fn lemma_lookup_balance_update(s: Seq<BalanceEntry>, i: int, e: BalanceEntry)
    requires
        0 <= i < s.len(),
        same_key(s[i], e),
        forall|j: int| i < j < s.len() ==> !same_key(#[trigger] s[j], e),
    ensures
        forall|id: AssetId, who: AccountId| #[trigger]
            lookup_balance(s.update(i, e), id, who) == if e.asset == id && e.account == who {
                Some(e.amount)
            } else {
                lookup_balance(s, id, who)
            },
{
    let t = s.update(i, e);
    assert forall|id: AssetId, who: AccountId| #[trigger]
        lookup_balance(t, id, who) == if e.asset == id && e.account == who {
            Some(e.amount)
        } else {
            lookup_balance(s, id, who)
        } by {
        if e.asset == id && e.account == who {
            lemma_lookup_balance_at(t, i, id, who);
        } else {
            lemma_lookup_balance_update_other(s, i, e, id, who);
        }
    }
}

/// Appending a row binds its cell and leaves every other cell unchanged.
pub proof fn lemma_lookup_balance_push(s: Seq<BalanceEntry>, e: BalanceEntry)
    ensures
        forall|id: AssetId, who: AccountId| #[trigger]
            lookup_balance(s.push(e), id, who) == if e.asset == id && e.account == who {
                Some(e.amount)
            } else {
                lookup_balance(s, id, who)
            },
{
    assert(s.push(e).drop_last() =~= s);
    assert forall|id: AssetId, who: AccountId| #[trigger]
        lookup_balance(s.push(e), id, who) == if e.asset == id && e.account == who {
            Some(e.amount)
        } else {
            lookup_balance(s, id, who)
        } by {
        assert(s.push(e).last() == e);
    }
}

/// A match at `i` with no later match is the one that `lookup_metadata` returns.
pub proof fn lemma_lookup_metadata_at(s: Seq<MetadataEntry>, i: int, id: AssetId)
    requires
        0 <= i < s.len(),
        s[i].id == id,
        forall|j: int| i < j < s.len() ==> s[j].id != id,
    ensures
        lookup_metadata(s, id) == Some((s[i].meta.name@, s[i].meta.symbol@)),
    decreases s.len(),
{
    if i < s.len() - 1 {
        lemma_lookup_metadata_at(s.drop_last(), i, id);
    }
}

/// No match anywhere means the id has no metadata on record.
pub proof fn lemma_lookup_metadata_none(s: Seq<MetadataEntry>, id: AssetId)
    requires
        forall|j: int| 0 <= j < s.len() ==> s[j].id != id,
    ensures
        lookup_metadata(s, id) is None,
    decreases s.len(),
{
    if s.len() > 0 {
        lemma_lookup_metadata_none(s.drop_last(), id);
    }
}

proof fn lemma_lookup_metadata_update_other(
    s: Seq<MetadataEntry>,
    i: int,
    e: MetadataEntry,
    k: AssetId,
)
    requires
        0 <= i < s.len(),
        s[i].id == e.id,
        k != e.id,
    ensures
        lookup_metadata(s.update(i, e), k) == lookup_metadata(s, k),
    decreases s.len(),
{
    let t = s.update(i, e);
    if i == s.len() - 1 {
        assert(t.drop_last() =~= s.drop_last());
    } else {
        assert(t.drop_last() =~= s.drop_last().update(i, e));
        lemma_lookup_metadata_update_other(s.drop_last(), i, e, k);
    }
}

/// Overwriting the last matching row rebinds its id and leaves every other
/// id's metadata unchanged.
pub proof fn lemma_lookup_metadata_update(s: Seq<MetadataEntry>, i: int, e: MetadataEntry)
    requires
        0 <= i < s.len(),
        s[i].id == e.id,
        forall|j: int| i < j < s.len() ==> s[j].id != e.id,
    ensures
        forall|k: AssetId| #[trigger]
            lookup_metadata(s.update(i, e), k) == if k == e.id {
                Some((e.meta.name@, e.meta.symbol@))
            } else {
                lookup_metadata(s, k)
            },
{
    let t = s.update(i, e);
    assert forall|k: AssetId| #[trigger]
        lookup_metadata(t, k) == if k == e.id {
            Some((e.meta.name@, e.meta.symbol@))
        } else {
            lookup_metadata(s, k)
        } by {
        if k == e.id {
            lemma_lookup_metadata_at(t, i, k);
        } else {
            lemma_lookup_metadata_update_other(s, i, e, k);
        }
    }
}

/// Appending a row binds its id and leaves every other id's metadata unchanged.
pub proof fn lemma_lookup_metadata_push(s: Seq<MetadataEntry>, e: MetadataEntry)
    ensures
        forall|k: AssetId| #[trigger]
            lookup_metadata(s.push(e), k) == if k == e.id {
                Some((e.meta.name@, e.meta.symbol@))
            } else {
                lookup_metadata(s, k)
            },
{
    assert(s.push(e).drop_last() =~= s);
    assert forall|k: AssetId| #[trigger]
        lookup_metadata(s.push(e), k) == if k == e.id {
            Some((e.meta.name@, e.meta.symbol@))
        } else {
            lookup_metadata(s, k)
        } by {
        assert(s.push(e).last() == e);
    }
}

/// Balance totals are never negative.
pub proof fn lemma_sum_balances_nonneg(s: Seq<BalanceEntry>, id: AssetId)
    ensures
        sum_balances(s, id) >= 0,
    decreases s.len(),
{
    if s.len() > 0 {
        lemma_sum_balances_nonneg(s.drop_last(), id);
    }
}

proof fn lemma_sum_balances_update_one(s: Seq<BalanceEntry>, i: int, e: BalanceEntry, id: AssetId)
    requires
        0 <= i < s.len(),
    ensures
        sum_balances(s.update(i, e), id) == sum_balances(s, id) - entry_contrib(s[i], id)
            + entry_contrib(e, id),
    decreases s.len(),
{
    let t = s.update(i, e);
    if i == s.len() - 1 {
        assert(t.drop_last() =~= s.drop_last());
    } else {
        assert(t.drop_last() =~= s.drop_last().update(i, e));
        lemma_sum_balances_update_one(s.drop_last(), i, e, id);
    }
}

/// Overwriting one row moves each asset's total by that row's change.
pub proof fn lemma_sum_balances_update(s: Seq<BalanceEntry>, i: int, e: BalanceEntry)
    requires
        0 <= i < s.len(),
    ensures
        forall|id: AssetId| #[trigger]
            sum_balances(s.update(i, e), id) == sum_balances(s, id) - entry_contrib(s[i], id)
                + entry_contrib(e, id),
{
    assert forall|id: AssetId| #[trigger]
        sum_balances(s.update(i, e), id) == sum_balances(s, id) - entry_contrib(s[i], id)
            + entry_contrib(e, id) by {
        lemma_sum_balances_update_one(s, i, e, id);
    }
}

/// Appending a row adds its contribution to each asset's total.
pub proof fn lemma_sum_balances_push(s: Seq<BalanceEntry>, e: BalanceEntry)
    ensures
        forall|id: AssetId| #[trigger]
            sum_balances(s.push(e), id) == sum_balances(s, id) + entry_contrib(e, id),
{
    assert forall|id: AssetId| #[trigger]
        sum_balances(s.push(e), id) == sum_balances(s, id) + entry_contrib(e, id) by {
        assert(s.push(e).drop_last() =~= s);
        assert(s.push(e).last() == e);
    }
}

/// No single balance exceeds its asset's total.
pub proof fn lemma_balance_le_sum(s: Seq<BalanceEntry>, id: AssetId, who: AccountId)
    ensures
        balance_of(s, id, who) <= sum_balances(s, id),
    decreases s.len(),
{
    if s.len() == 0 {
    } else if s.last().asset == id && s.last().account == who {
        lemma_sum_balances_nonneg(s.drop_last(), id);
    } else {
        lemma_balance_le_sum(s.drop_last(), id, who);
    }
}

/// An asset no account holds has a zero total.
pub proof fn lemma_no_balance_sum_zero(s: Seq<BalanceEntry>, id: AssetId)
    requires
        forall|w: AccountId| (#[trigger] lookup_balance(s, id, w)) is None,
    ensures
        sum_balances(s, id) == 0,
    decreases s.len(),
{
    if s.len() > 0 {
        let e = s.last();
        if e.asset == id {
            assert(lookup_balance(s, id, e.account) is Some);
        } else {
            assert forall|w: AccountId| (#[trigger] lookup_balance(s.drop_last(), id, w))
                is None by {
                assert(lookup_balance(s, id, w) is None);
            }
            lemma_no_balance_sum_zero(s.drop_last(), id);
        }
    }
}

/// Rewriting a cell in place keeps the store free of duplicate cells.
pub proof fn lemma_unique_keys_update(s: Seq<BalanceEntry>, i: int, e: BalanceEntry)
    requires
        unique_balance_keys(s),
        0 <= i < s.len(),
        same_key(s[i], e),
    ensures
        unique_balance_keys(s.update(i, e)),
{
    let t = s.update(i, e);
    assert forall|p: int, q: int| 0 <= p < q < t.len() implies !same_key(#[trigger] t[p], #[trigger] t[q]) by {
        assert(!same_key(s[p], s[q]));
    }
}

/// Appending a row for a cell not yet stored keeps the store duplicate-free.
pub proof fn lemma_unique_keys_push(s: Seq<BalanceEntry>, e: BalanceEntry)
    requires
        unique_balance_keys(s),
        forall|j: int| 0 <= j < s.len() ==> !same_key(#[trigger] s[j], e),
    ensures
        unique_balance_keys(s.push(e)),
{
    let t = s.push(e);
    assert forall|p: int, q: int| 0 <= p < q < t.len() implies !same_key(#[trigger] t[p], #[trigger] t[q]) by {
        if q < s.len() {
            assert(!same_key(s[p], s[q]));
        } else {
            assert(!same_key(s[p], e));
        }
    }
}

} // verus!
