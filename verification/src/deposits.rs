use vstd::prelude::*;
use crate::bonding::{LifeBonding, Refund};
use crate::tables::pair_key;
use crate::types::Payment;
use vstd::set::fold::is_fun_commutative;

verus! {

broadcast use vstd::set::group_set_axioms;

/// Adds the weight of each key to an accumulator.
pub open spec fn adder(g: spec_fn(u128) -> int) -> spec_fn(int, u128) -> int {
    |acc: int, k: u128| acc + g(k)
}

/// Sum of the weights of the keys of `s`.
pub open spec fn sum_over(s: Set<u128>, g: spec_fn(u128) -> int) -> int {
    s.fold(0int, adder(g))
}

proof fn lemma_adder_commutative(g: spec_fn(u128) -> int)
    ensures
        is_fun_commutative(adder(g)),
{
    assert forall|a1: u128, a2: u128, b: int| #[trigger] adder(g)(adder(g)(b, a1), a2) == adder(g)(adder(g)(b, a2), a1) by {}
}

/// A new key adds its weight.
pub proof fn lemma_sum_over_insert(s: Set<u128>, g: spec_fn(u128) -> int, k: u128)
    requires
        s.finite(),
        !s.contains(k),
    ensures
        sum_over(s.insert(k), g) == sum_over(s, g) + g(k),
{
    lemma_adder_commutative(g);
    vstd::set::fold::lemma_fold_insert(s, 0int, adder(g), k);
}

/// A removed key takes its weight away.
pub proof fn lemma_sum_over_remove(s: Set<u128>, g: spec_fn(u128) -> int, k: u128)
    requires
        s.finite(),
        s.contains(k),
    ensures
        sum_over(s, g) == sum_over(s.remove(k), g) + g(k),
{
    lemma_sum_over_insert(s.remove(k), g, k);
    assert(s.remove(k).insert(k) =~= s);
}

/// Weights that agree on the keys give the same sum.
pub proof fn lemma_sum_over_frame(s: Set<u128>, g1: spec_fn(u128) -> int, g2: spec_fn(u128) -> int)
    requires
        s.finite(),
        forall|k: u128| s.contains(k) ==> g1(k) == g2(k),
    ensures
        sum_over(s, g1) == sum_over(s, g2),
    decreases s.len(),
{
    if s.len() == 0 {
        assert(s =~= Set::<u128>::empty());
        lemma_adder_commutative(g1);
        vstd::set::fold::lemma_fold_empty(0int, adder(g1));
        vstd::set::fold::lemma_fold_empty(0int, adder(g2));
    } else {
        let a = s.choose();
        lemma_sum_over_frame(s.remove(a), g1, g2);
        lemma_sum_over_remove(s, g1, a);
        lemma_sum_over_remove(s, g2, a);
    }
}

/// The proof that the refund under `k` deposited for the compensation, zero where the
/// refund is for another one or none is stored.
pub open spec fn deposit_of(refunds: Map<u128, Refund>, compensation_id: u64, k: u128) -> int {
    if refunds.contains_key(k) && refunds[k].compensation_id == compensation_id {
        refunds[k].proof_of_refund.amount as int
    } else {
        0
    }
}

/// Sum of the proofs deposited for the compensation.
pub open spec fn deposits(refunds: Map<u128, Refund>, compensation_id: u64) -> int {
    sum_over(refunds.dom(), |k: u128| deposit_of(refunds, compensation_id, k))
}

/// Nothing is deposited where no refund is stored.
pub proof fn lemma_deposits_empty(compensation_id: u64)
    ensures
        deposits(Map::<u128, Refund>::empty(), compensation_id) == 0,
{
    let g = |j: u128| deposit_of(Map::<u128, Refund>::empty(), compensation_id, j);
    assert(Map::<u128, Refund>::empty().dom() =~= Set::<u128>::empty());
    vstd::set::fold::lemma_fold_empty(0int, adder(g));
}

/// Storing a refund under a new key adds its proof to its compensation's deposits.
pub proof fn lemma_deposits_insert(refunds: Map<u128, Refund>, compensation_id: u64, k: u128, r: Refund)
    requires
        refunds.dom().finite(),
        !refunds.contains_key(k),
    ensures
        deposits(refunds.insert(k, r), compensation_id) == deposits(refunds, compensation_id) + if r.compensation_id
            == compensation_id {
            r.proof_of_refund.amount as int
        } else {
            0
        },
{
    let m2 = refunds.insert(k, r);
    let g1 = |j: u128| deposit_of(refunds, compensation_id, j);
    let g2 = |j: u128| deposit_of(m2, compensation_id, j);
    lemma_sum_over_frame(refunds.dom(), g1, g2);
    lemma_sum_over_insert(refunds.dom(), g2, k);
    assert(m2.dom() =~= refunds.dom().insert(k));
}

/// Removing a stored refund takes its proof from its compensation's deposits.
pub proof fn lemma_deposits_remove(refunds: Map<u128, Refund>, compensation_id: u64, k: u128)
    requires
        refunds.dom().finite(),
        refunds.contains_key(k),
    ensures
        deposits(refunds.remove(k), compensation_id) == deposits(refunds, compensation_id) - deposit_of(
            refunds,
            compensation_id,
            k,
        ),
{
    let m2 = refunds.remove(k);
    let g1 = |j: u128| deposit_of(refunds, compensation_id, j);
    let g2 = |j: u128| deposit_of(m2, compensation_id, j);
    lemma_sum_over_frame(refunds.dom().remove(k), g1, g2);
    lemma_sum_over_remove(refunds.dom(), g1, k);
    assert(m2.dom() =~= refunds.dom().remove(k));
}

impl LifeBonding {
    /// Every refund is stored under the key of its address and compensation.
    pub open spec fn refunds_keyed(&self) -> bool {
        forall|k: u128| #[trigger] self.address_refund@.contains_key(k) ==> k == pair_key(
            self.address_refund@[k].address,
            self.address_refund@[k].compensation_id,
        )
    }

    /// Each compensation's proof amount is the sum of the proofs deposited for it.
    pub open spec fn proofs_balanced(&self) -> bool {
        &&& self.refunds_keyed()
        &&& forall|compensation_id: u64| self.compensation_at(compensation_id).proof_amount
            == #[trigger] deposits(self.address_refund@, compensation_id)
    }

    /// A deposit keeps the proofs balanced, unless the caller replaces a deposit it
    /// already made for that compensation (the earlier proof stays counted).
    pub proof fn law_proof_keeps_balance(old: &Self, new: &Self, caller: u64, payment: Payment)
        requires
            old.proofs_balanced(),
            old.proof_added(new, caller, payment),
            old.refund_of(caller, old.compensations_ids.id_of(payment.token_identifier, payment.token_nonce)) is None,
        ensures
            new.proofs_balanced(),
    {
        let cid = old.compensations_ids.id_of(payment.token_identifier, payment.token_nonce);
        let k = pair_key(caller, cid);
        let r = Refund { compensation_id: cid, address: caller, proof_of_refund: payment };
        assert forall|j: u64| new.compensation_at(j).proof_amount == #[trigger] deposits(new.address_refund@, j) by {
            lemma_deposits_insert(old.address_refund@, j, k, r);
            assert(old.compensation_at(j).proof_amount == deposits(old.address_refund@, j));
        }
    }

    /// A refund claim keeps the proofs balanced.
    pub proof fn law_refund_keeps_balance(old: &Self, new: &Self, caller: u64, block_timestamp: u64, token_identifier: u64, nonce: u64)
        requires
            old.proofs_balanced(),
            old.claim_refund_error(caller, block_timestamp, token_identifier, nonce) is None,
            old.refund_claimed(new, caller, old.compensations_ids.id_of(token_identifier, nonce)),
        ensures
            new.proofs_balanced(),
    {
        let cid = old.compensations_ids.id_of(token_identifier, nonce);
        let k = pair_key(caller, cid);
        let r = old.address_refund@[k];
        assert(k == pair_key(r.address, r.compensation_id));
        assert(r.compensation_id == cid);
        assert(deposit_of(old.address_refund@, cid, k) == r.proof_of_refund.amount);
        assert forall|j: u64| new.compensation_at(j).proof_amount == #[trigger] deposits(new.address_refund@, j) by {
            lemma_deposits_remove(old.address_refund@, j, k);
            assert(old.compensation_at(j).proof_amount == deposits(old.address_refund@, j));
        }
    }
}

} // verus!
