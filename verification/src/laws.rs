//! The ledger's stated laws, each proved from the operations' contracts:
//! conservation of supply, clamping of burns and transfers at the available
//! balance, idempotence of metadata writes, and strict growth of issued ids.

use vstd::prelude::*;

use crate::ledger::{burned, created, metadata_set, transferred, BurnOutcome, Ledger};
use crate::model::{sum_balances, AccountId, AssetId};

verus! {

/// Conservation: in every well-formed ledger — and every operation's
/// contract keeps the ledger well-formed — each live asset's recorded
/// supply equals the sum of all balances held under it.
pub proof fn lemma_conservation(l: Ledger, id: AssetId)
    requires
        l.wf(),
        l.spec_asset(id) is Some,
    ensures
        l.spec_asset(id).unwrap().supply == sum_balances(l.balances_seq(), id),
{
}

/// Burning more than the available balance never errs on the amount: it
/// burns exactly the prior balance and leaves the caller's balance at zero.
pub proof fn lemma_burn_clamps_to_balance(
    pre: Ledger,
    post: Ledger,
    caller: AccountId,
    id: AssetId,
    amount: u128,
    out: BurnOutcome,
)
    requires
        burned(pre, post, caller, id, amount, out),
        amount >= pre.spec_balance(id, caller),
    ensures
        out.burned == pre.spec_balance(id, caller),
        post.spec_balance(id, caller) == 0,
{
    assert(post.spec_balance(id, caller) == (pre.spec_balance(id, caller) - out.burned) as u128);
}

/// Transferring more than the available balance (to another account) moves
/// exactly the prior balance and leaves the source balance at zero.
pub proof fn lemma_transfer_clamps_to_balance(
    pre: Ledger,
    post: Ledger,
    caller: AccountId,
    id: AssetId,
    amount: u128,
    to: AccountId,
    effective: u128,
)
    requires
        transferred(pre, post, caller, id, amount, to, effective),
        amount >= pre.spec_balance(id, caller),
        to != caller,
    ensures
        effective == pre.spec_balance(id, caller),
        post.spec_balance(id, caller) == 0,
{
    assert(post.spec_balance(id, caller) as int == pre.spec_balance(id, caller) - effective);
}

/// Setting the same metadata twice is a no-op in effect: after the second
/// write, every observation of the ledger equals what the first write left.
pub proof fn lemma_set_metadata_idempotent(
    l0: Ledger,
    l1: Ledger,
    l2: Ledger,
    id: AssetId,
    name: Seq<u8>,
    symbol: Seq<u8>,
)
    requires
        metadata_set(l0, l1, id, name, symbol),
        metadata_set(l1, l2, id, name, symbol),
    ensures
        forall|k: AssetId| #[trigger] l2.spec_metadata(k) == l1.spec_metadata(k),
        l2.assets_seq() == l1.assets_seq(),
        l2.balances_seq() == l1.balances_seq(),
        l2.spec_nonce() == l1.spec_nonce(),
        l2.spec_policy() == l1.spec_policy(),
{
    assert forall|k: AssetId| #[trigger] l2.spec_metadata(k) == l1.spec_metadata(k) by {
        assert(l1.spec_metadata(id) == Some((name, symbol)));
    }
}

/// Successive creations issue strictly increasing ids (while the nonce has
/// not saturated), whatever happens in between: every other operation —
/// and every failing one — leaves the nonce unchanged.
pub proof fn lemma_create_ids_increase(
    l0: Ledger,
    l1: Ledger,
    l1b: Ledger,
    l2: Ledger,
    c1: AccountId,
    c2: AccountId,
    id1: AssetId,
    id2: AssetId,
)
    requires
        created(l0, l1, c1, id1),
        l1b.spec_nonce() == l1.spec_nonce(),
        created(l1b, l2, c2, id2),
        l0.spec_nonce() < u64::MAX,
    ensures
        id1 < id2,
{
}

} // verus!
