use vstd::prelude::*;
use crate::bonding::{Bond, Effects, LifeBonding, LifeBondingContract, PENALTY_DENOMINATOR};
use crate::tables::{pair_key, swap_removed, first_index, lemma_swap_removed_set};
use crate::types::{ContractError, Payment};

verus! {

/// The remaining amount of the bond stored under `id`, zero where none is stored.
pub open spec fn remaining_of(bonds: Map<u64, Bond>, id: u64) -> int {
    if bonds.contains_key(id) {
        bonds[id].remaining_amount as int
    } else {
        0
    }
}

/// Sum of the remaining amounts of the bonds listed in `s`.
pub open spec fn remaining_sum(bonds: Map<u64, Bond>, s: Seq<u64>) -> int
    decreases s.len(),
{
    if s.len() == 0 {
        0
    } else {
        remaining_sum(bonds, s.drop_last()) + remaining_of(bonds, s.last())
    }
}

/// Bonds that agree on the listed ids have the same sum.
pub proof fn lemma_sum_frame(m1: Map<u64, Bond>, m2: Map<u64, Bond>, s: Seq<u64>)
    requires
        forall|i: int| 0 <= i < s.len() ==> remaining_of(m1, #[trigger] s[i]) == remaining_of(m2, s[i]),
    ensures
        remaining_sum(m1, s) == remaining_sum(m2, s),
    decreases s.len(),
{
    if s.len() > 0 {
        lemma_sum_frame(m1, m2, s.drop_last());
        assert(remaining_of(m1, s[s.len() - 1]) == remaining_of(m2, s[s.len() - 1]));
    }
}

/// Replacing the listed id at position `i` by `v` changes the sum by the difference of
/// their remaining amounts.
pub proof fn lemma_sum_update(m: Map<u64, Bond>, s: Seq<u64>, i: int, v: u64)
    requires
        0 <= i < s.len(),
    ensures
        remaining_sum(m, s.update(i, v)) == remaining_sum(m, s) - remaining_of(m, s[i]) + remaining_of(m, v),
    decreases s.len(),
{
    let t = s.update(i, v);
    if i == s.len() - 1 {
        assert(t.drop_last() =~= s.drop_last());
    } else {
        lemma_sum_update(m, s.drop_last(), i, v);
        assert(t.drop_last() =~= s.drop_last().update(i, v));
    }
}

/// Storing `b` under a listed id that appears once changes the sum by the difference of
/// the remaining amounts.
pub proof fn lemma_sum_insert(m: Map<u64, Bond>, s: Seq<u64>, id: u64, b: Bond)
    requires
        s.no_duplicates(),
        s.contains(id),
    ensures
        remaining_sum(m.insert(id, b), s) == remaining_sum(m, s) - remaining_of(m, id) + b.remaining_amount,
    decreases s.len(),
{
    let m2 = m.insert(id, b);
    if s.last() == id {
        assert(!s.drop_last().contains(id)) by {
            if s.drop_last().contains(id) {
                let k = choose|k: int| 0 <= k < s.drop_last().len() && s.drop_last()[k] == id;
                assert(s[k] == s[s.len() - 1]);
            }
        }
        assert forall|i: int| 0 <= i < s.drop_last().len() implies remaining_of(m, #[trigger] s.drop_last()[i])
            == remaining_of(m2, s.drop_last()[i]) by {
            assert(s.drop_last()[i] != id);
        }
        lemma_sum_frame(m, m2, s.drop_last());
    } else {
        let k = choose|k: int| 0 <= k < s.len() && s[k] == id;
        assert(s.drop_last()[k] == id);
        lemma_sum_insert(m, s.drop_last(), id, b);
    }
}

/// Storing anything under an id not listed leaves the sum as it is.
pub proof fn lemma_sum_unlisted(m1: Map<u64, Bond>, m2: Map<u64, Bond>, s: Seq<u64>, id: u64)
    requires
        !s.contains(id),
        forall|k: u64| k != id ==> remaining_of(m1, k) == remaining_of(m2, k),
    ensures
        remaining_sum(m1, s) == remaining_sum(m2, s),
{
    assert forall|i: int| 0 <= i < s.len() implies remaining_of(m1, #[trigger] s[i]) == remaining_of(m2, s[i]) by {
        assert(s[i] != id);
    }
    lemma_sum_frame(m1, m2, s);
}

/// Removing a listed id from the list, the last id taking its place, takes its remaining
/// amount off the sum.
pub proof fn lemma_sum_swap_removed(m: Map<u64, Bond>, s: Seq<u64>, id: u64)
    requires
        s.contains(id),
    ensures
        remaining_sum(m, swap_removed(s, id)) == remaining_sum(m, s) - remaining_of(m, id),
{
    let i = first_index(s, id);
    let k = choose|k: int| 0 <= k < s.len() && s[k] == id;
    assert(exists|j: int| 0 <= j < s.len() && s[j] == id && forall|l: int| 0 <= l < j ==> s[l] != id) by {
        let j = first_of(s, id, k);
    }
    let t = s.update(i, s.last());
    lemma_sum_update(m, s, i, s.last());
    assert(t.len() == s.len());
    assert(t.last() == s.last());
}

/// An index of `x` in `s` with no earlier one, found by looking down from `k`.
proof fn first_of(s: Seq<u64>, x: u64, k: int) -> (j: int)
    requires
        0 <= k < s.len(),
        s[k] == x,
    ensures
        0 <= j <= k,
        s[j] == x,
        forall|l: int| 0 <= l < j ==> s[l] != x,
    decreases k,
{
    if exists|l: int| 0 <= l < k && s[l] == x {
        let l = choose|l: int| 0 <= l < k && s[l] == x;
        first_of(s, x, l)
    } else {
        k
    }
}

impl LifeBonding {
    /// The bond accounts balance: the total bond amount is the sum of the remaining
    /// amounts of the listed bonds, exactly the stored bonds are listed, and every listed
    /// bond has an id that the id mapper handed out.
    pub open spec fn accounted(&self) -> bool {
        &&& self.total_bond_amount == remaining_sum(self.bond_data@, self.bonds@)
        &&& forall|id: u64| #[trigger] self.bond_data@.contains_key(id) <==> self.bonds@.contains(id)
        &&& forall|id: u64| #[trigger] self.bonds@.contains(id) ==> 1 <= id <= self.bonds_ids.last_id
    }

    /// A new bond keeps the accounts balanced, unless it is made for a data NFT whose
    /// bond is still listed (the stored bond is then overwritten).
    pub proof fn law_bond_keeps_accounts(
        old: &Self,
        new: &Self,
        block_timestamp: u64,
        original_caller: u64,
        token_identifier: u64,
        nonce: u64,
        lock_period_seconds: u64,
        payment: Payment,
    )
        requires
            old.wf(),
            old.accounted(),
            old.bonded(new, block_timestamp, original_caller, token_identifier, nonce, lock_period_seconds, payment),
            !old.bonds@.contains(old.bonds_ids.next_id(token_identifier, nonce)),
        ensures
            new.accounted(),
    {
        let id = old.bonds_ids.next_id(token_identifier, nonce);
        let b = new.bond_data@[id];
        assert(new.bonds@ == old.bonds@.push(id));
        assert(new.bonds@.drop_last() =~= old.bonds@);
        lemma_sum_unlisted(old.bond_data@, new.bond_data@, old.bonds@, id);
        assert(remaining_sum(new.bond_data@, new.bonds@) == remaining_sum(old.bond_data@, old.bonds@) + payment.amount);
        assert forall|k: u64| #[trigger] new.bond_data@.contains_key(k) <==> new.bonds@.contains(k) by {
            if k != id {
                if old.bonds@.contains(k) {
                    let j = choose|j: int| 0 <= j < old.bonds@.len() && old.bonds@[j] == k;
                    assert(new.bonds@[j] == k);
                }
                if new.bonds@.contains(k) {
                    let j = choose|j: int| 0 <= j < new.bonds@.len() && new.bonds@[j] == k;
                    assert(old.bonds@[j] == k);
                }
            } else {
                assert(new.bonds@[new.bonds@.len() - 1] == id);
            }
        }
        assert forall|k: u64| #[trigger] new.bonds@.contains(k) implies 1 <= k <= new.bonds_ids.last_id by {
            let j = choose|j: int| 0 <= j < new.bonds@.len() && new.bonds@[j] == k;
            assert(new.bonds_ids.last_id >= old.bonds_ids.last_id);
            if j < old.bonds@.len() {
                assert(old.bonds@[j] == k);
                assert(old.bonds@.contains(k));
            } else {
                assert(k == id);
                if old.bonds_ids.id_of(token_identifier, nonce) != 0 {
                    assert(old.bonds_ids.ids@.contains_key(pair_key(token_identifier, nonce)));
                }
            }
        }
    }

    /// A withdrawal keeps the accounts balanced.
    pub proof fn law_withdraw_keeps_accounts(
        old: &Self,
        new: &Self,
        caller: u64,
        block_timestamp: u64,
        token_identifier: u64,
        nonce: u64,
    )
        requires
            old.wf(),
            old.accounted(),
            old.withdrawn(new, caller, block_timestamp, token_identifier, nonce),
        ensures
            new.accounted(),
    {
        let id = old.bonds_ids.id_of(token_identifier, nonce);
        let s = old.bonds@;
        let s2 = new.bonds@;
        lemma_swap_removed_set(s, id);
        if s.contains(id) {
            lemma_sum_swap_removed(old.bond_data@, s, id);
            let i = first_index(s, id);
            assert(!s2.contains(id)) by {
                if s2.contains(id) {
                    let j = choose|j: int| 0 <= j < s2.len() && s2[j] == id;
                    if j == i {
                        assert(s[s.len() - 1] == id);
                    } else {
                        assert(s[j] == id);
                    }
                }
            }
            lemma_sum_unlisted(old.bond_data@, new.bond_data@, s2, id);
            assert forall|k: u64| #[trigger] new.bond_data@.contains_key(k) <==> s2.contains(k) by {
                assert(s2.to_set() == s.to_set().remove(id));
                assert(s.to_set().contains(k) == s.contains(k));
                assert(s2.to_set().contains(k) == s2.contains(k));
            }
            assert forall|k: u64| #[trigger] s2.contains(k) implies 1 <= k <= new.bonds_ids.last_id by {
                assert(s2.to_set() == s.to_set().remove(id));
                assert(s2.to_set().contains(k));
                assert(s.to_set().contains(k));
            }
        } else {
            assert(!old.bond_data@.contains_key(id));
            assert(new.bond_data@ =~= old.bond_data@);
        }
    }

    /// Extending a stored bond keeps the accounts balanced.
    pub proof fn law_extend_keeps_accounts(old: &Self, new: &Self, bond_id: u64, block_timestamp: u64, amount: u128)
        requires
            old.wf(),
            old.accounted(),
            old.extended(new, bond_id, block_timestamp, amount),
            old.bond_data@.contains_key(bond_id),
        ensures
            new.accounted(),
    {
        assert(old.bonds@.contains(bond_id));
        let b = new.bond_data@[bond_id];
        lemma_sum_insert(old.bond_data@, old.bonds@, bond_id, b);
        assert(new.bond_data@ == old.bond_data@.insert(bond_id, b));
        assert(b.remaining_amount == old.bond_data@[bond_id].remaining_amount + amount);
        assert(remaining_of(old.bond_data@, bond_id) == old.bond_data@[bond_id].remaining_amount);
        assert(new.bonds@ == old.bonds@);
        assert forall|k: u64| #[trigger] new.bond_data@.contains_key(k) <==> new.bonds@.contains(k) by {
            assert(new.bond_data@.contains_key(k) == old.bond_data@.contains_key(k));
        }
    }

    /// A withdrawal splits the bond's remaining amount between the owner and the
    /// compensation: before the lock ends the owner receives a positive amount and the
    /// penalty joins the compensation; afterwards the owner receives it all.
    pub proof fn law_withdraw_splits_remaining(
        old: &Self,
        new: &Self,
        caller: u64,
        block_timestamp: u64,
        token_identifier: u64,
        nonce: u64,
    )
        requires
            old.withdraw_error(caller, block_timestamp, token_identifier, nonce) is None,
            old.withdrawn(new, caller, block_timestamp, token_identifier, nonce),
        ensures
            ({
                let bond = old.bond_at(old.bonds_ids.id_of(token_identifier, nonce));
                let compensation_id = old.compensations_ids.id_of(token_identifier, nonce);
                let before = old.compensation_at(compensation_id).accumulated_amount;
                let after = new.compensation_at(compensation_id).accumulated_amount;
                if Self::is_early(bond, block_timestamp) {
                    &&& old.withdrawal_amount(bond, block_timestamp) > 0
                    &&& old.withdrawal_amount(bond, block_timestamp) + (after - before) == bond.remaining_amount
                } else {
                    &&& old.withdrawal_amount(bond, block_timestamp) == bond.remaining_amount
                    &&& after == before
                }
            }),
    {
    }

    /// A refund claim pays out of the accumulated amount exactly the compensation it
    /// transfers, and a blacklisted holder receives no compensation.
    pub proof fn law_refund_pays_from_accumulated(
        old: &Self,
        new: &Self,
        caller: u64,
        block_timestamp: u64,
        token_identifier: u64,
        nonce: u64,
    )
        requires
            old.claim_refund_error(caller, block_timestamp, token_identifier, nonce) is None,
            old.refund_claimed(new, caller, old.compensations_ids.id_of(token_identifier, nonce)),
        ensures
            ({
                let compensation_id = old.compensations_ids.id_of(token_identifier, nonce);
                let before = old.compensation_at(compensation_id);
                let after = new.compensation_at(compensation_id);
                let transfers = old.refund_transfers(caller, compensation_id);
                let deposited = old.refund_of(caller, compensation_id).unwrap().proof_of_refund;
                &&& after.proof_amount == before.proof_amount - deposited.amount
                &&& if old.blacklist_of(compensation_id).contains(caller) {
                    &&& after.accumulated_amount == before.accumulated_amount
                    &&& forall|i: int| 0 <= i < transfers.len() ==> #[trigger] transfers[i].payment == deposited
                } else {
                    &&& transfers.len() == 2
                    &&& transfers[0].payment == deposited
                    &&& transfers[1].payment.token_identifier == old.bond_payment_token
                    &&& before.accumulated_amount - after.accumulated_amount == transfers[1].payment.amount
                }
            }),
    {
    }

    /// A withdrawal undoes a bond: withdrawn by its owner once the lock has ended, a
    /// bond returns exactly what was paid for it, and the total bond amount is back where
    /// it was before the bond.
    pub proof fn law_withdraw_undoes_bond(
        s0: &Self,
        s1: &Self,
        s2: &Self,
        bond_timestamp: u64,
        original_caller: u64,
        token_identifier: u64,
        nonce: u64,
        lock_period_seconds: u64,
        payment: Payment,
        withdraw_timestamp: u64,
    )
        requires
            s0.bonded(s1, bond_timestamp, original_caller, token_identifier, nonce, lock_period_seconds, payment),
            s1.withdraw_error(original_caller, withdraw_timestamp, token_identifier, nonce) is None,
            s1.withdrawn(s2, original_caller, withdraw_timestamp, token_identifier, nonce),
            withdraw_timestamp > bond_timestamp + lock_period_seconds,
        ensures
            s1.withdrawal_amount(s1.bond_at(s1.bonds_ids.id_of(token_identifier, nonce)), withdraw_timestamp) == payment.amount,
            s2.total_bond_amount == s0.total_bond_amount,
    {
        let id = s0.bonds_ids.next_id(token_identifier, nonce);
        assert(s1.bonds_ids.id_of(token_identifier, nonce) == id);
        assert(s1.bond_at(id).remaining_amount == payment.amount);
        assert(s1.bond_at(id).unbond_timestamp == bond_timestamp + lock_period_seconds);
    }
    /// A withdrawal pays the caller, in the bond payment token, the remaining amount of
    /// the bond it withdraws. Before the lock ends it keeps back the penalty, the bond
    /// amount (top-ups included) times the withdraw penalty out of `PENALTY_DENOMINATOR`,
    /// rounded down: the amount kept is the largest `p` with
    /// `p * PENALTY_DENOMINATOR <= bond_amount * withdraw_penalty`, and it joins the
    /// accumulated amount of the NFT's compensation. After the lock it keeps nothing.
    pub proof fn law_withdrawal_keeps_penalty_of_bond(
        pre: &Self,
        post: &Self,
        caller: u64,
        block_timestamp: u64,
        token_identifier: u64,
        nonce: u64,
        r: Result<Effects, ContractError>,
    )
        requires
            <LifeBonding as LifeBondingContract>::withdraw_outcome(pre, post, caller, block_timestamp, token_identifier, nonce, r),
            r is Ok,
        ensures
            ({
                let bond = pre.bond_at(pre.bonds_ids.id_of(token_identifier, nonce));
                let compensation_id = pre.compensations_ids.id_of(token_identifier, nonce);
                let before = pre.compensation_at(compensation_id).accumulated_amount;
                let after = post.compensation_at(compensation_id).accumulated_amount;
                r matches Ok(eff) && {
                    &&& eff.transfers@.len() == 1
                    &&& eff.transfers@[0].to == caller
                    &&& eff.transfers@[0].payment.token_identifier == pre.bond_payment_token
                    &&& if bond.unbond_timestamp >= block_timestamp {
                        let kept = bond.remaining_amount - eff.transfers@[0].payment.amount;
                        &&& kept == bond.bond_amount * pre.withdraw_penalty / (PENALTY_DENOMINATOR as int)
                        &&& kept * PENALTY_DENOMINATOR <= bond.bond_amount * pre.withdraw_penalty
                            < (kept + 1) * PENALTY_DENOMINATOR
                        &&& after == before + kept
                    } else {
                        &&& eff.transfers@[0].payment.amount == bond.remaining_amount
                        &&& after == before
                    }
                }
            }),
    {
        let bond = pre.bond_at(pre.bonds_ids.id_of(token_identifier, nonce));
        let x = bond.bond_amount * pre.withdraw_penalty;
        let k = PENALTY_DENOMINATOR as int;
        assert(x >= 0) by (nonlinear_arith)
            requires x == bond.bond_amount * pre.withdraw_penalty, bond.bond_amount >= 0, pre.withdraw_penalty >= 0;
        assert((x / k) * k <= x < (x / k + 1) * k) by (nonlinear_arith)
            requires x >= 0, k > 0;
    }

    /// The proof that `address` deposited for the compensation, zero where it has none.
    pub open spec fn deposit_amount(&self, address: u64, compensation_id: u64) -> int {
        match self.refund_of(address, compensation_id) {
            Some(r) => r.proof_of_refund.amount as int,
            None => 0,
        }
    }

    /// The proofs deposited by the holders listed in `s`, added up.
    proof fn lemma_refunds_sum_adds_deposits(&self, compensation_id: u64, s: Seq<u64>)
        ensures
            self.refunds_sum(compensation_id, s) == s.map_values(|a: u64| self.deposit_amount(a, compensation_id)).fold_left(
                0int,
                |acc: int, x: int| acc + x,
            ),
        decreases s.len(),
    {
        if s.len() > 0 {
            self.lemma_refunds_sum_adds_deposits(compensation_id, s.drop_last());
            assert(s.map_values(|a: u64| self.deposit_amount(a, compensation_id)).drop_last()
                =~= s.drop_last().map_values(|a: u64| self.deposit_amount(a, compensation_id)));
        }
    }

    /// A holder who is not blacklisted receives its proof back and its proof times the
    /// compensation per token: the accumulated amount divided, rounded down, by the
    /// proofs of the holders not blacklisted, that is the proof amount less the sum of
    /// the proofs that all blacklisted holders deposited. What it receives leaves the
    /// accumulated amount.
    pub proof fn law_refund_shares_among_holders_not_blacklisted(
        pre: &Self,
        post: &Self,
        caller: u64,
        block_timestamp: u64,
        token_identifier: u64,
        nonce: u64,
        r: Result<Effects, ContractError>,
    )
        requires
            <LifeBonding as LifeBondingContract>::claim_refund_outcome(pre, post, caller, block_timestamp, token_identifier, nonce, r),
            r is Ok,
            !pre.blacklist_of(pre.compensations_ids.id_of(token_identifier, nonce)).contains(caller),
        ensures
            ({
                let compensation_id = pre.compensations_ids.id_of(token_identifier, nonce);
                let compensation = pre.compensation_at(compensation_id);
                let blacklisted = pre.blacklist_of(compensation_id).map_values(
                    |a: u64| pre.deposit_amount(a, compensation_id),
                ).fold_left(0int, |acc: int, x: int| acc + x);
                let deposited = pre.deposit_amount(caller, compensation_id);
                let per_token = (compensation.accumulated_amount as int) / (compensation.proof_amount - blacklisted);
                r matches Ok(eff) && {
                    &&& compensation.proof_amount > blacklisted
                    &&& eff.transfers@.len() == 2
                    &&& eff.transfers@[0].to == caller
                    &&& eff.transfers@[0].payment.amount == deposited
                    &&& eff.transfers@[1].to == caller
                    &&& eff.transfers@[1].payment.token_identifier == pre.bond_payment_token
                    &&& eff.transfers@[1].payment.amount == deposited * per_token
                    &&& post.compensation_at(compensation_id).accumulated_amount
                        == compensation.accumulated_amount - deposited * per_token
                }
            }),
    {
        let compensation_id = pre.compensations_ids.id_of(token_identifier, nonce);
        pre.lemma_refunds_sum_adds_deposits(compensation_id, pre.blacklist_of(compensation_id));
    }
}

} // verus!
