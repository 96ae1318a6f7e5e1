use vstd::prelude::*;
use std::collections::HashMap;
use crate::types::{State, ContractError, Payment, Transfer, COMPENSATION_SAFE_PERIOD};
use crate::arith::{add_amount, sub_amount, mul_amount, mul_div, div_amount, add_u64};
use crate::rewards::stored;
use crate::ledger::lemma_sum_insert;
use crate::deposits::{deposits, lemma_deposits_empty};
use crate::tables::{
    pair_key, make_pair_key, stored_u64, set_inserted, swap_removed, set_contains, set_insert,
    set_swap_remove, seq_view, members, keyed_no_dups, keyed_contains, keyed_insert,
    keyed_swap_remove, ObjectToIdMapper, lemma_pair_key_injective,
};

verus! {

broadcast use vstd::std_specs::hash::group_hash_axioms, lemma_pair_key_injective;

/// Denominator of the withdraw penalty (`10_000` is 100%).
pub const PENALTY_DENOMINATOR: u64 = 10_000;

/// A bond: `bond_amount` of the payment token locked by `address` for the data NFT
/// `(token_identifier, nonce)` until `unbond_timestamp`; `remaining_amount` is what a
/// withdrawal returns before any penalty.
#[derive(Clone, Copy, Debug, PartialEq, Eq, Structural)]
pub struct Bond {
    pub address: u64,
    pub token_identifier: u64,
    pub nonce: u64,
    pub lock_period: u64,
    pub bond_timestamp: u64,
    pub unbond_timestamp: u64,
    pub bond_amount: u128,
    pub remaining_amount: u128,
}

/// The compensation pool of a data NFT: penalties accumulated from early withdrawals,
/// and the proofs that holders deposit to claim a part of them until `end_date`.
#[derive(Clone, Copy, Debug, PartialEq, Eq, Structural)]
pub struct Compensation {
    pub token_identifier: u64,
    pub nonce: u64,
    pub accumulated_amount: u128,
    pub proof_amount: u128,
    pub end_date: u64,
}

/// A holder's deposited proof for a compensation.
#[derive(Clone, Copy, Debug, PartialEq, Eq, Structural)]
pub struct Refund {
    pub compensation_id: u64,
    pub address: u64,
    pub proof_of_refund: Payment,
}

/// A call that the bond contract makes on the liveliness-stake contract.
#[derive(Clone, Copy, Debug, PartialEq, Eq, Structural)]
pub enum LivelinessCall {
    GenerateRewards,
    SetAddressRewardsPerShare(u64),
    StackRewards(u64),
}

/// What a successful transaction asks of the chain: calls on the liveliness-stake
/// contract, made before the transaction's own changes, then transfers out.
pub struct Effects {
    pub calls: Vec<LivelinessCall>,
    pub transfers: Vec<Transfer>,
}

/// A bond of nothing: what the contract reads where no bond is stored.
pub open spec fn empty_bond() -> Bond {
    Bond {
        address: 0,
        token_identifier: 0,
        nonce: 0,
        lock_period: 0,
        bond_timestamp: 0,
        unbond_timestamp: 0,
        bond_amount: 0,
        remaining_amount: 0,
    }
}

/// An empty compensation: what the contract reads where none is stored.
pub open spec fn empty_compensation() -> Compensation {
    Compensation { token_identifier: 0, nonce: 0, accumulated_amount: 0, proof_amount: 0, end_date: 0 }
}

/// The state of the life-bonding contract.
pub struct LifeBonding {
    pub contract_state: State,
    pub administrator: u64,
    pub top_up_administrator: u64,
    pub liveliness_stake_address: u64,
    pub bond_payment_token: u64,
    pub minimum_penalty: u64,
    pub maximum_penalty: u64,
    pub withdraw_penalty: u64,
    pub accepted_callers: Vec<u64>,
    pub lock_periods: Vec<u64>,
    pub lock_period_bond_amount: HashMap<u64, u128>,
    pub bonds_ids: ObjectToIdMapper,
    pub bonds: Vec<u64>,
    pub bond_data: HashMap<u64, Bond>,
    pub address_bonds: HashMap<u64, Vec<u64>>,
    pub total_bond_amount: u128,
    pub compensations_ids: ObjectToIdMapper,
    pub compensations: Vec<u64>,
    pub compensation_data: HashMap<u64, Compensation>,
    pub compensation_blacklist: HashMap<u64, Vec<u64>>,
    pub address_refund: HashMap<u128, Refund>,
    pub address_vault_nonce: HashMap<u128, u64>,
}

impl LifeBonding {
    /// The sets and id mappers are well formed.
    pub open spec fn wf(&self) -> bool {
        &&& self.bonds_ids.wf()
        &&& self.compensations_ids.wf()
        &&& self.accepted_callers@.no_duplicates()
        &&& self.lock_periods@.no_duplicates()
        &&& self.bonds@.no_duplicates()
        &&& self.compensations@.no_duplicates()
        &&& keyed_no_dups(self.address_bonds@)
        &&& keyed_no_dups(self.compensation_blacklist@)
    }

    pub open spec fn ready(&self) -> bool {
        self.contract_state == State::Active
    }

    /// The owner of the contract and its administrator are privileged.
    pub open spec fn is_privileged(&self, address: u64, owner: u64) -> bool {
        address == owner || address == self.administrator
    }

    pub open spec fn bond_at(&self, id: u64) -> Bond {
        if self.bond_data@.contains_key(id) {
            self.bond_data@[id]
        } else {
            empty_bond()
        }
    }

    pub open spec fn compensation_at(&self, id: u64) -> Compensation {
        if self.compensation_data@.contains_key(id) {
            self.compensation_data@[id]
        } else {
            empty_compensation()
        }
    }

    /// The amount that a bond of the given lock period must pay, zero when none is set.
    pub open spec fn lock_period_amount(&self, lock_period: u64) -> nat {
        stored(self.lock_period_bond_amount@, lock_period)
    }

    pub open spec fn address_bonds_of(&self, address: u64) -> Seq<u64> {
        members(seq_view(self.address_bonds@), address)
    }

    pub open spec fn blacklist_of(&self, compensation_id: u64) -> Seq<u64> {
        members(seq_view(self.compensation_blacklist@), compensation_id)
    }

    pub open spec fn refund_of(&self, address: u64, compensation_id: u64) -> Option<Refund> {
        if self.address_refund@.contains_key(pair_key(address, compensation_id)) {
            Some(self.address_refund@[pair_key(address, compensation_id)])
        } else {
            None
        }
    }

    /// The vault nonce set by `address` for the collection `token_identifier`, zero when
    /// none is set.
    pub open spec fn vault_nonce_of(&self, address: u64, token_identifier: u64) -> u64 {
        stored_u64(self.address_vault_nonce@, pair_key(address, token_identifier))
    }

    fn get_bond(&self, id: u64) -> (b: Bond)
        ensures
            b == self.bond_at(id),
    {
        match self.bond_data.get(&id) {
            Some(b) => *b,
            None => Bond {
                address: 0,
                token_identifier: 0,
                nonce: 0,
                lock_period: 0,
                bond_timestamp: 0,
                unbond_timestamp: 0,
                bond_amount: 0,
                remaining_amount: 0,
            },
        }
    }

    fn get_compensation(&self, id: u64) -> (c: Compensation)
        ensures
            c == self.compensation_at(id),
    {
        match self.compensation_data.get(&id) {
            Some(c) => *c,
            None => Compensation { token_identifier: 0, nonce: 0, accumulated_amount: 0, proof_amount: 0, end_date: 0 },
        }
    }

    fn get_vault_nonce(&self, address: u64, token_identifier: u64) -> (n: u64)
        ensures
            n == self.vault_nonce_of(address, token_identifier),
    {
        match self.address_vault_nonce.get(&make_pair_key(address, token_identifier)) {
            Some(n) => *n,
            None => 0,
        }
    }



    /// The first error that a bond meets, if any.
    pub open spec fn bond_error(
        &self,
        caller: u64,
        caller_is_smart_contract: bool,
        owner: u64,
        block_timestamp: u64,
        token_identifier: u64,
        nonce: u64,
        lock_period_seconds: u64,
        payment: Payment,
    ) -> Option<ContractError> {
        let bond_id = self.bonds_ids.next_id(token_identifier, nonce);
        let amount = self.lock_period_amount(lock_period_seconds);
        if !self.ready() {
            Some(ContractError::ContractNotReady)
        } else if self.bonds_ids.insert_overflows(token_identifier, nonce) {
            Some(ContractError::Overflow)
        } else if !((caller_is_smart_contract && self.accepted_callers@.contains(caller))
            || self.is_privileged(caller, owner) || self.address_bonds_of(caller).contains(bond_id)) {
            Some(ContractError::CallableOnlyByAcceptedCallers)
        } else if payment.token_identifier != self.bond_payment_token {
            Some(ContractError::InvalidTokenIdentifier)
        } else if !self.lock_periods@.contains(lock_period_seconds) || amount == 0 {
            Some(ContractError::InvalidLockPeriod)
        } else if payment.amount != amount {
            Some(ContractError::InvalidAmount)
        } else if block_timestamp + lock_period_seconds > u64::MAX {
            Some(ContractError::Overflow)
        } else if self.total_bond_amount + amount > u128::MAX {
            Some(ContractError::Overflow)
        } else if self.compensations_ids.insert_overflows(token_identifier, nonce) {
            Some(ContractError::Overflow)
        } else {
            None
        }
    }

    /// `new` is `self` after `original_caller` bonds `payment` for the data NFT
    /// `(token_identifier, nonce)`: the bond is recorded under the NFT's id, from now
    /// until now plus the lock period, and listed among the bonds and among those of
    /// `original_caller`; the total bond amount grows by the payment; the NFT's
    /// compensation is listed and starts empty.
    pub open spec fn bonded(
        &self,
        new: &Self,
        block_timestamp: u64,
        original_caller: u64,
        token_identifier: u64,
        nonce: u64,
        lock_period_seconds: u64,
        payment: Payment,
    ) -> bool {
        let bond_id = self.bonds_ids.next_id(token_identifier, nonce);
        let compensation_id = self.compensations_ids.next_id(token_identifier, nonce);
        &&& self.bonds_ids.inserted(&new.bonds_ids, token_identifier, nonce)
        &&& self.compensations_ids.inserted(&new.compensations_ids, token_identifier, nonce)
        &&& new.total_bond_amount == self.total_bond_amount + payment.amount
        &&& new.bond_data@ == self.bond_data@.insert(
            bond_id,
            Bond {
                address: original_caller,
                token_identifier,
                nonce,
                lock_period: lock_period_seconds,
                bond_timestamp: block_timestamp,
                unbond_timestamp: (block_timestamp + lock_period_seconds) as u64,
                bond_amount: payment.amount,
                remaining_amount: payment.amount,
            },
        )
        &&& new.bonds@ == set_inserted(self.bonds@, bond_id)
        &&& seq_view(new.address_bonds@) == seq_view(self.address_bonds@).insert(
            original_caller,
            set_inserted(self.address_bonds_of(original_caller), bond_id),
        )
        &&& new.compensations@ == set_inserted(self.compensations@, compensation_id)
        &&& new.compensation_data@ == self.compensation_data@.insert(
            compensation_id,
            Compensation { token_identifier, nonce, accumulated_amount: 0, proof_amount: 0, end_date: 0 },
        )
        &&& *new == (LifeBonding {
            bonds_ids: new.bonds_ids,
            compensations_ids: new.compensations_ids,
            total_bond_amount: new.total_bond_amount,
            bond_data: new.bond_data,
            bonds: new.bonds,
            address_bonds: new.address_bonds,
            compensations: new.compensations,
            compensation_data: new.compensation_data,
            ..*self
        })
    }


    /// The penalty that an early withdrawal of `bond` pays into the compensation pool.
    pub open spec fn penalty_of(&self, bond: Bond) -> int {
        bond.bond_amount * self.withdraw_penalty / (PENALTY_DENOMINATOR as int)
    }

    /// A withdrawal at `block_timestamp` of `bond` is early: its lock has not ended.
    pub open spec fn is_early(bond: Bond, block_timestamp: u64) -> bool {
        bond.unbond_timestamp >= block_timestamp
    }

    /// The first error that a withdrawal meets, if any.
    pub open spec fn withdraw_error(&self, caller: u64, block_timestamp: u64, token_identifier: u64, nonce: u64) -> Option<ContractError> {
        let bond_id = self.bonds_ids.id_of(token_identifier, nonce);
        let compensation_id = self.compensations_ids.id_of(token_identifier, nonce);
        let bond = self.bond_at(bond_id);
        let compensation = self.compensation_at(compensation_id);
        let early = Self::is_early(bond, block_timestamp);
        let penalty = self.penalty_of(bond);
        if !self.ready() {
            Some(ContractError::ContractNotReady)
        } else if bond_id == 0 || compensation_id == 0 {
            Some(ContractError::UnknownObject)
        } else if bond.address != caller {
            Some(ContractError::BondNotFound)
        } else if early && bond.remaining_amount <= penalty {
            Some(ContractError::PenaltiesExceedWithdrawalAmount)
        } else if early && bond.bond_amount < penalty {
            Some(ContractError::NegativeResult)
        } else if early && bond.bond_amount - penalty < compensation.accumulated_amount {
            Some(ContractError::PenaltiesExceedWithdrawalAmount)
        } else if self.total_bond_amount < bond.remaining_amount {
            Some(ContractError::NegativeResult)
        } else if early && compensation.accumulated_amount + penalty > u128::MAX {
            Some(ContractError::Overflow)
        } else {
            None
        }
    }

    /// What a withdrawal pays back: the remaining amount, less the penalty when early.
    pub open spec fn withdrawal_amount(&self, bond: Bond, block_timestamp: u64) -> int {
        if Self::is_early(bond, block_timestamp) {
            bond.remaining_amount - self.penalty_of(bond)
        } else {
            bond.remaining_amount as int
        }
    }

    /// `new` is `self` after `caller` withdraws the bond of `(token_identifier, nonce)`:
    /// the bond is cleared and unlisted, the total bond amount loses its remaining
    /// amount; an early withdrawal adds its penalty to the compensation, a late one
    /// unlists the compensation.
    pub open spec fn withdrawn(&self, new: &Self, caller: u64, block_timestamp: u64, token_identifier: u64, nonce: u64) -> bool {
        let bond_id = self.bonds_ids.id_of(token_identifier, nonce);
        let compensation_id = self.compensations_ids.id_of(token_identifier, nonce);
        let bond = self.bond_at(bond_id);
        let compensation = self.compensation_at(compensation_id);
        &&& new.total_bond_amount == self.total_bond_amount - bond.remaining_amount
        &&& new.bond_data@ == self.bond_data@.remove(bond_id)
        &&& new.bonds@ == swap_removed(self.bonds@, bond_id)
        &&& seq_view(new.address_bonds@) == if self.address_bonds@.contains_key(caller) {
            seq_view(self.address_bonds@).insert(caller, swap_removed(self.address_bonds@[caller]@, bond_id))
        } else {
            seq_view(self.address_bonds@)
        }
        &&& if Self::is_early(bond, block_timestamp) {
            &&& new.compensations@ == self.compensations@
            &&& new.compensation_data@ == self.compensation_data@.insert(
                compensation_id,
                Compensation {
                    accumulated_amount: (compensation.accumulated_amount + self.penalty_of(bond)) as u128,
                    ..compensation
                },
            )
        } else {
            &&& new.compensations@ == swap_removed(self.compensations@, compensation_id)
            &&& new.compensation_data@ == self.compensation_data@
        }
        &&& *new == (LifeBonding {
            total_bond_amount: new.total_bond_amount,
            bond_data: new.bond_data,
            bonds: new.bonds,
            address_bonds: new.address_bonds,
            compensations: new.compensations,
            compensation_data: new.compensation_data,
            ..*self
        })
    }


    /// The first error met when the bond `bond_id` is extended by `amount` at
    /// `block_timestamp`, if any.
    pub open spec fn extend_error(&self, bond_id: u64, block_timestamp: u64, amount: u128) -> Option<ContractError> {
        let bond = self.bond_at(bond_id);
        if block_timestamp + bond.lock_period > u64::MAX {
            Some(ContractError::Overflow)
        } else if bond.bond_amount + amount > u128::MAX || bond.remaining_amount + amount > u128::MAX
            || self.total_bond_amount + amount > u128::MAX {
            Some(ContractError::Overflow)
        } else {
            None
        }
    }

    /// `new` is `self` after the bond `bond_id` is extended by `amount` at
    /// `block_timestamp`: its lock restarts now for its lock period, and its bond amount,
    /// its remaining amount and the total bond amount grow by `amount`.
    pub open spec fn extended(&self, new: &Self, bond_id: u64, block_timestamp: u64, amount: u128) -> bool {
        let bond = self.bond_at(bond_id);
        &&& block_timestamp + bond.lock_period <= u64::MAX
        &&& bond.bond_amount + amount <= u128::MAX
        &&& bond.remaining_amount + amount <= u128::MAX
        &&& new.bond_data@ == self.bond_data@.insert(
            bond_id,
            Bond {
                bond_timestamp: block_timestamp,
                unbond_timestamp: (block_timestamp + bond.lock_period) as u64,
                bond_amount: (bond.bond_amount + amount) as u128,
                remaining_amount: (bond.remaining_amount + amount) as u128,
                ..bond
            },
        )
        &&& new.total_bond_amount == self.total_bond_amount + amount
        &&& *new == (LifeBonding {
            bond_data: new.bond_data,
            total_bond_amount: new.total_bond_amount,
            ..*self
        })
    }

    fn extend_bond(&mut self, bond_id: u64, block_timestamp: u64, amount: u128) -> (r: Result<(), ContractError>)
        ensures
            match old(self).extend_error(bond_id, block_timestamp, amount) {
                Some(e) => r == Err::<(), ContractError>(e) && *final(self) == *old(self),
                None => r is Ok && old(self).extended(final(self), bond_id, block_timestamp, amount),
            },
            old(self).wf() ==> final(self).wf(),
            old(self).wf() && old(self).accounted() && old(self).bond_data@.contains_key(bond_id) ==> final(self).accounted(),
    {
        let bond = self.get_bond(bond_id);
        let unbond_timestamp = add_u64(block_timestamp, bond.lock_period)?;
        let bond_amount = add_amount(bond.bond_amount, amount)?;
        let remaining_amount = add_amount(bond.remaining_amount, amount)?;
        let total = add_amount(self.total_bond_amount, amount)?;
        self.bond_data.insert(
            bond_id,
            Bond { bond_timestamp: block_timestamp, unbond_timestamp, bond_amount, remaining_amount, ..bond },
        );
        self.total_bond_amount = total;
        proof {
            if old(self).wf() && old(self).accounted() && old(self).bond_data@.contains_key(bond_id) {
                Self::law_extend_keeps_accounts(old(self), self, bond_id, block_timestamp, amount);
            }
        }
        Ok(())
    }

    /// The first error that a renewal meets, if any.
    pub open spec fn renew_error(&self, caller: u64, block_timestamp: u64, token_identifier: u64, nonce: u64) -> Option<ContractError> {
        let bond_id = self.bonds_ids.id_of(token_identifier, nonce);
        let bond = self.bond_at(bond_id);
        if !self.ready() {
            Some(ContractError::ContractNotReady)
        } else if bond_id == 0 {
            Some(ContractError::UnknownObject)
        } else if bond.address != caller {
            Some(ContractError::BondNotFound)
        } else if !self.lock_periods@.contains(bond.lock_period) {
            Some(ContractError::InvalidLockPeriod)
        } else if block_timestamp + bond.lock_period > u64::MAX {
            Some(ContractError::Overflow)
        } else {
            None
        }
    }


    /// The first error that setting a vault nonce meets, if any.
    pub open spec fn set_vault_nonce_error(&self, caller: u64, token_identifier: u64, nonce: u64) -> Option<ContractError> {
        let bond_id = self.bonds_ids.id_of(token_identifier, nonce);
        if !self.ready() {
            Some(ContractError::ContractNotReady)
        } else if bond_id == 0 {
            Some(ContractError::UnknownObject)
        } else if self.bond_at(bond_id).address != caller {
            Some(ContractError::BondNotFound)
        } else {
            None
        }
    }


    /// The first error that a top-up of one's own vault meets, if any.
    pub open spec fn top_up_vault_error(&self, caller: u64, block_timestamp: u64, token_identifier: u64, nonce: u64, payment: Payment) -> Option<ContractError> {
        let bond_id = self.bonds_ids.id_of(token_identifier, nonce);
        if !self.ready() {
            Some(ContractError::ContractNotReady)
        } else if self.vault_nonce_of(caller, token_identifier) != nonce {
            Some(ContractError::VaultNonceNotSet)
        } else if bond_id == 0 {
            Some(ContractError::UnknownObject)
        } else if self.bond_at(bond_id).address != caller {
            Some(ContractError::BondNotFound)
        } else if payment.token_identifier != self.bond_payment_token {
            Some(ContractError::InvalidTokenIdentifier)
        } else {
            self.extend_error(bond_id, block_timestamp, payment.amount)
        }
    }


    /// The first error that a top-up of another address's vault meets, if any.
    pub open spec fn top_up_address_vault_error(&self, caller: u64, block_timestamp: u64, address: u64, token_identifier: u64, nonce: u64, payment: Payment) -> Option<ContractError> {
        let bond_id = self.bonds_ids.id_of(token_identifier, nonce);
        if !self.ready() {
            Some(ContractError::ContractNotReady)
        } else if self.vault_nonce_of(address, token_identifier) != nonce {
            Some(ContractError::VaultNonceNotSet)
        } else if caller != self.top_up_administrator {
            Some(ContractError::CallableOnlyByAcceptedCallers)
        } else if bond_id == 0 {
            Some(ContractError::UnknownObject)
        } else if self.bond_at(bond_id).address != caller {
            Some(ContractError::BondNotFound)
        } else if payment.token_identifier != self.bond_payment_token {
            Some(ContractError::InvalidTokenIdentifier)
        } else {
            self.extend_error(bond_id, block_timestamp, payment.amount)
        }
    }


    /// The first error that staking rewards into a vault meets, if any.
    pub open spec fn stake_rewards_error(&self, caller: u64, block_timestamp: u64, original_caller: u64, token_identifier: u64, amount: u128) -> Option<ContractError> {
        let vault_nonce = self.vault_nonce_of(original_caller, token_identifier);
        let bond_id = self.bonds_ids.id_of(token_identifier, vault_nonce);
        if !self.ready() {
            Some(ContractError::ContractNotReady)
        } else if caller != self.liveliness_stake_address {
            Some(ContractError::CallableOnlyByAcceptedCallers)
        } else if vault_nonce == 0 {
            Some(ContractError::VaultNonceNotSet)
        } else if bond_id == 0 {
            Some(ContractError::UnknownObject)
        } else if self.bond_at(bond_id).address != original_caller {
            Some(ContractError::BondNotFound)
        } else {
            self.extend_error(bond_id, block_timestamp, amount)
        }
    }


    /// The first error that depositing a proof meets, if any.
    pub open spec fn add_proof_error(&self, block_timestamp: u64, payment: Payment) -> Option<ContractError> {
        let compensation_id = self.compensations_ids.id_of(payment.token_identifier, payment.token_nonce);
        let compensation = self.compensation_at(compensation_id);
        if !self.ready() {
            Some(ContractError::ContractNotReady)
        } else if compensation_id == 0 {
            Some(ContractError::UnknownObject)
        } else if !(block_timestamp <= compensation.end_date && compensation.end_date != 0) {
            Some(ContractError::InvalidTimelineToProof)
        } else if compensation.proof_amount + payment.amount > u128::MAX {
            Some(ContractError::Overflow)
        } else {
            None
        }
    }


    /// `new` is `self` after `caller` deposits `payment` as proof: the NFT's compensation
    /// counts it, and it is recorded as the caller's refund, replacing any earlier one.
    pub open spec fn proof_added(&self, new: &Self, caller: u64, payment: Payment) -> bool {
        let compensation_id = self.compensations_ids.id_of(payment.token_identifier, payment.token_nonce);
        let compensation = self.compensation_at(compensation_id);
        &&& compensation.proof_amount + payment.amount <= u128::MAX
        &&& new.compensation_data@ == self.compensation_data@.insert(
            compensation_id,
            Compensation { proof_amount: (compensation.proof_amount + payment.amount) as u128, ..compensation },
        )
        &&& new.address_refund@ == self.address_refund@.insert(
            pair_key(caller, compensation_id),
            Refund { compensation_id, address: caller, proof_of_refund: payment },
        )
        &&& *new == (LifeBonding {
            compensation_data: new.compensation_data,
            address_refund: new.address_refund,
            ..*self
        })
    }

    /// Sum of the proofs that the addresses of `s` deposited for the compensation.
    pub open spec fn refunds_sum(&self, compensation_id: u64, s: Seq<u64>) -> nat
        decreases s.len(),
    {
        if s.len() == 0 {
            0
        } else {
            self.refunds_sum(compensation_id, s.drop_last()) + match self.refund_of(s.last(), compensation_id) {
                Some(r) => r.proof_of_refund.amount as nat,
                None => 0,
            }
        }
    }

    /// Sums over longer prefixes are no smaller.
    pub proof fn lemma_refunds_sum_monotonic(&self, compensation_id: u64, s: Seq<u64>, i: int, j: int)
        requires
            0 <= i <= j <= s.len(),
        ensures
            self.refunds_sum(compensation_id, s.take(i)) <= self.refunds_sum(compensation_id, s.take(j)),
        decreases j - i,
    {
        if i < j {
            self.lemma_refunds_sum_monotonic(compensation_id, s, i, j - 1);
            assert(s.take(j).drop_last() =~= s.take(j - 1));
        }
    }

    fn sum_of_blacklist_refunds(&self, compensation_id: u64) -> (r: Result<u128, ContractError>)
        ensures
            match r {
                Ok(v) => v == self.refunds_sum(compensation_id, self.blacklist_of(compensation_id)),
                Err(e) => e == ContractError::Overflow && self.refunds_sum(compensation_id, self.blacklist_of(compensation_id)) > u128::MAX,
            },
    {
        let ghost list = self.blacklist_of(compensation_id);
        match self.compensation_blacklist.get(&compensation_id) {
            None => {
                assert(list =~= Seq::<u64>::empty());
                Ok(0)
            },
            Some(v) => {
                assert(v@ == list);
                let mut sum: u128 = 0;
                let mut i: usize = 0;
                assert(list.take(0) =~= Seq::<u64>::empty());
                while i < v.len()
                    invariant
                        v@ == list,
                        list == self.blacklist_of(compensation_id),
                        i <= v@.len(),
                        sum == self.refunds_sum(compensation_id, list.take(i as int)),
                    decreases v@.len() - i,
                {
                    let address = v[i];
                    assert(list.take(i + 1).drop_last() =~= list.take(i as int));
                    assert(list.take(i + 1).last() == address);
                    match self.address_refund.get(&make_pair_key(address, compensation_id)) {
                        Some(refund) => {
                            match add_amount(sum, refund.proof_of_refund.amount) {
                                Ok(t) => {
                                    sum = t;
                                },
                                Err(e) => {
                                    proof {
                                        assert(self.refund_of(address, compensation_id) == Some(*refund));
                                        assert(self.refunds_sum(compensation_id, list.take(i + 1)) == sum + refund.proof_of_refund.amount);
                                        self.lemma_refunds_sum_monotonic(compensation_id, list, i + 1, list.len() as int);
                                        assert(list.take(list.len() as int) =~= list);
                                    }
                                    return Err(e);
                                },
                            }
                        },
                        None => {},
                    }
                    i = i + 1;
                }
                assert(list.take(list.len() as int) =~= list);
                Ok(sum)
            },
        }
    }

    /// The compensation per unit of proof that a holder who is not blacklisted receives:
    /// the accumulated amount shared among the proofs of holders not blacklisted.
    pub open spec fn compensation_per_token(&self, compensation_id: u64) -> int {
        let compensation = self.compensation_at(compensation_id);
        (compensation.accumulated_amount as int) / (compensation.proof_amount - self.refunds_sum(
            compensation_id,
            self.blacklist_of(compensation_id),
        ))
    }

    /// The first error that a refund claim meets, if any.
    pub open spec fn claim_refund_error(&self, caller: u64, block_timestamp: u64, token_identifier: u64, nonce: u64) -> Option<ContractError> {
        let compensation_id = self.compensations_ids.id_of(token_identifier, nonce);
        let compensation = self.compensation_at(compensation_id);
        let refund = self.refund_of(caller, compensation_id);
        let deposited = refund.unwrap().proof_of_refund.amount;
        let sum = self.refunds_sum(compensation_id, self.blacklist_of(compensation_id));
        if !self.ready() {
            Some(ContractError::ContractNotReady)
        } else if compensation_id == 0 {
            Some(ContractError::UnknownObject)
        } else if compensation.end_date + COMPENSATION_SAFE_PERIOD > u64::MAX {
            Some(ContractError::Overflow)
        } else if block_timestamp <= compensation.end_date + COMPENSATION_SAFE_PERIOD {
            Some(ContractError::InvalidTimelineToRefund)
        } else if refund.is_none() {
            Some(ContractError::RefundNotFound)
        } else if self.blacklist_of(compensation_id).contains(caller) {
            if compensation.proof_amount < deposited {
                Some(ContractError::NegativeResult)
            } else {
                None
            }
        } else if compensation.proof_amount < sum {
            Some(ContractError::NegativeResult)
        } else if compensation.proof_amount == sum {
            Some(ContractError::DivisionByZero)
        } else if compensation.accumulated_amount < deposited * self.compensation_per_token(compensation_id) {
            Some(ContractError::NegativeResult)
        } else if compensation.proof_amount < deposited {
            Some(ContractError::NegativeResult)
        } else {
            None
        }
    }

    /// The compensation after `caller` claims its refund: a blacklisted holder only takes
    /// its proof back; any other also receives its proof times the compensation per
    /// token out of the accumulated amount.
    pub open spec fn compensation_after_claim(&self, caller: u64, compensation_id: u64) -> Compensation {
        let compensation = self.compensation_at(compensation_id);
        let deposited = self.refund_of(caller, compensation_id).unwrap().proof_of_refund.amount;
        if self.blacklist_of(compensation_id).contains(caller) {
            Compensation { proof_amount: (compensation.proof_amount - deposited) as u128, ..compensation }
        } else {
            Compensation {
                accumulated_amount: (compensation.accumulated_amount - deposited * self.compensation_per_token(compensation_id)) as u128,
                proof_amount: (compensation.proof_amount - deposited) as u128,
                ..compensation
            }
        }
    }

    /// The transfers of a refund claim of `caller`.
    pub open spec fn refund_transfers(&self, caller: u64, compensation_id: u64) -> Seq<Transfer> {
        let refund = self.refund_of(caller, compensation_id).unwrap();
        if self.blacklist_of(compensation_id).contains(caller) {
            if refund.proof_of_refund.amount > 0 {
                seq![Transfer { to: caller, payment: refund.proof_of_refund }]
            } else {
                Seq::empty()
            }
        } else {
            seq![
                Transfer { to: caller, payment: refund.proof_of_refund },
                Transfer {
                    to: caller,
                    payment: Payment {
                        token_identifier: self.bond_payment_token,
                        token_nonce: 0,
                        amount: (refund.proof_of_refund.amount * self.compensation_per_token(compensation_id)) as u128,
                    },
                },
            ]
        }
    }

    /// `new` is `self` after `caller` claims its refund from the compensation
    /// `compensation_id`: the compensation is updated, the caller's proof is forgotten, a
    /// blacklisted caller leaves the blacklist, and a compensation left with nothing is
    /// unlisted.
    pub open spec fn refund_claimed(&self, new: &Self, caller: u64, compensation_id: u64) -> bool {
        let after = self.compensation_after_claim(caller, compensation_id);
        &&& new.compensation_data@ == self.compensation_data@.insert(compensation_id, after)
        &&& new.address_refund@ == self.address_refund@.remove(pair_key(caller, compensation_id))
        &&& seq_view(new.compensation_blacklist@) == if self.blacklist_of(compensation_id).contains(caller) {
            seq_view(self.compensation_blacklist@).insert(compensation_id, swap_removed(self.blacklist_of(compensation_id), caller))
        } else {
            seq_view(self.compensation_blacklist@)
        }
        &&& new.compensations@ == if after.accumulated_amount == 0 && after.proof_amount == 0 {
            swap_removed(self.compensations@, compensation_id)
        } else {
            self.compensations@
        }
        &&& *new == (LifeBonding {
            compensation_data: new.compensation_data,
            address_refund: new.address_refund,
            compensation_blacklist: new.compensation_blacklist,
            compensations: new.compensations,
            ..*self
        })
    }

}

/// The endpoints of the life-bonding contract.
pub trait LifeBondingContract: Sized {
    /// What `init` guarantees, of the deployed state.
    spec fn init_outcome(s: Self) -> bool;

    /// Deploys the contract: inactive, with the default penalties (5%, 100% and 80% for
    /// early withdrawals) and nothing else set.
    fn init() -> (s: Self)
        ensures
            Self::init_outcome(s),
    ;

    /// What `upgrade` guarantees, given the state before and after.
    spec fn upgrade_outcome(pre: &Self, post: &Self) -> bool;

    /// Upgrades the contract, which leaves it inactive.
    fn upgrade(&mut self)
        ensures
            Self::upgrade_outcome(old(self), final(self)),
    ;

    /// What `bond` guarantees, given the state before and after, its arguments and its result.
    spec fn bond_outcome(pre: &Self, post: &Self, caller: u64, caller_is_smart_contract: bool, owner: u64, block_timestamp: u64, original_caller: u64, token_identifier: u64, nonce: u64, lock_period_seconds: u64, payment: Payment, r: Result<Effects, ContractError>) -> bool;

    /// Endpoint `bond`: `caller` bonds `payment` in the name of `original_caller` for the
    /// data NFT `(token_identifier, nonce)`, for a lock period whose bond amount the
    /// payment must match. The caller must be an accepted smart contract, privileged, or
    /// already hold the NFT's bond. Before its changes the liveliness contract allocates
    /// its rewards and records `original_caller`'s rewards per share.
    fn bond(
        &mut self,
        caller: u64,
        caller_is_smart_contract: bool,
        owner: u64,
        block_timestamp: u64,
        original_caller: u64,
        token_identifier: u64,
        nonce: u64,
        lock_period_seconds: u64,
        payment: Payment,
    ) -> (r: Result<Effects, ContractError>)
        ensures
            Self::bond_outcome(old(self), final(self), caller, caller_is_smart_contract, owner, block_timestamp, original_caller, token_identifier, nonce, lock_period_seconds, payment, r),
    ;

    /// What `withdraw` guarantees, given the state before and after, its arguments and its result.
    spec fn withdraw_outcome(pre: &Self, post: &Self, caller: u64, block_timestamp: u64, token_identifier: u64, nonce: u64, r: Result<Effects, ContractError>) -> bool;

    /// Endpoint `withdraw`: the owner of the bond of `(token_identifier, nonce)` takes
    /// back its remaining amount. Before the lock ends the withdraw penalty is kept back
    /// for the NFT's compensation, and it may neither reach the remaining amount nor
    /// leave less of the bond amount than the compensation holds. Before its changes the
    /// liveliness contract stacks the owner's rewards.
    fn withdraw(&mut self, caller: u64, block_timestamp: u64, token_identifier: u64, nonce: u64) -> (r: Result<Effects, ContractError>)
        ensures
            Self::withdraw_outcome(old(self), final(self), caller, block_timestamp, token_identifier, nonce, r),
    ;

    /// What `renew` guarantees, given the state before and after, its arguments and its result.
    spec fn renew_outcome(pre: &Self, post: &Self, caller: u64, block_timestamp: u64, token_identifier: u64, nonce: u64, r: Result<Effects, ContractError>) -> bool;

    /// Endpoint `renew`: the owner of the bond of `(token_identifier, nonce)` restarts its
    /// lock now, for its lock period, which must still be offered. Before its changes the
    /// liveliness contract stacks the caller's rewards.
    fn renew(&mut self, caller: u64, block_timestamp: u64, token_identifier: u64, nonce: u64) -> (r: Result<Effects, ContractError>)
        ensures
            Self::renew_outcome(old(self), final(self), caller, block_timestamp, token_identifier, nonce, r),
    ;

    /// What `set_vault_nonce` guarantees, given the state before and after, its arguments and its result.
    spec fn set_vault_nonce_outcome(pre: &Self, post: &Self, caller: u64, token_identifier: u64, nonce: u64, r: Result<(), ContractError>) -> bool;

    /// Endpoint `setVaultNonce`: the owner of the bond of `(token_identifier, nonce)`
    /// makes that NFT its vault for the collection `token_identifier`.
    fn set_vault_nonce(&mut self, caller: u64, token_identifier: u64, nonce: u64) -> (r: Result<(), ContractError>)
        ensures
            Self::set_vault_nonce_outcome(old(self), final(self), caller, token_identifier, nonce, r),
    ;

    /// What `top_up_vault` guarantees, given the state before and after, its arguments and its result.
    spec fn top_up_vault_outcome(pre: &Self, post: &Self, caller: u64, block_timestamp: u64, token_identifier: u64, nonce: u64, payment: Payment, r: Result<Effects, ContractError>) -> bool;

    /// Endpoint `topUpVault`: the owner of its vault bond `(token_identifier, nonce)`
    /// adds `payment` of the bond token to it, which restarts its lock. Before its
    /// changes the liveliness contract stacks the caller's rewards.
    fn top_up_vault(&mut self, caller: u64, block_timestamp: u64, token_identifier: u64, nonce: u64, payment: Payment) -> (r: Result<Effects, ContractError>)
        ensures
            Self::top_up_vault_outcome(old(self), final(self), caller, block_timestamp, token_identifier, nonce, payment, r),
    ;

    /// What `top_up_address_vault` guarantees, given the state before and after, its arguments and its result.
    spec fn top_up_address_vault_outcome(pre: &Self, post: &Self, caller: u64, block_timestamp: u64, address: u64, token_identifier: u64, nonce: u64, payment: Payment, r: Result<Effects, ContractError>) -> bool;

    /// Endpoint `topUpAddressVault`: the top-up administrator adds `payment` to the bond
    /// `(token_identifier, nonce)`, which must be the vault of `address` for the
    /// collection; the bond itself must be held by the caller. Before its changes the
    /// liveliness contract stacks the caller's rewards.
    fn top_up_address_vault(&mut self, caller: u64, block_timestamp: u64, address: u64, token_identifier: u64, nonce: u64, payment: Payment) -> (r: Result<Effects, ContractError>)
        ensures
            Self::top_up_address_vault_outcome(old(self), final(self), caller, block_timestamp, address, token_identifier, nonce, payment, r),
    ;

    /// What `stake_rewards` guarantees, given the state before and after, its arguments and its result.
    spec fn stake_rewards_outcome(pre: &Self, post: &Self, caller: u64, block_timestamp: u64, original_caller: u64, token_identifier: u64, amount: u128, r: Result<(), ContractError>) -> bool;

    /// Endpoint `stakeRewards`, callable by the liveliness contract only: adds `amount`
    /// of rewards to the vault bond that `original_caller` set for the collection
    /// `token_identifier`, which restarts its lock.
    fn stake_rewards(&mut self, caller: u64, block_timestamp: u64, original_caller: u64, token_identifier: u64, amount: u128) -> (r: Result<(), ContractError>)
        ensures
            Self::stake_rewards_outcome(old(self), final(self), caller, block_timestamp, original_caller, token_identifier, amount, r),
    ;

    /// What `add_proof` guarantees, given the state before and after, its arguments and its result.
    spec fn add_proof_outcome(pre: &Self, post: &Self, caller: u64, block_timestamp: u64, payment: Payment, r: Result<(), ContractError>) -> bool;

    /// Endpoint `proof`: `caller` deposits `payment` of a data NFT as proof for the NFT's
    /// compensation, before its end date; the deposit replaces any earlier one of the
    /// caller.
    fn add_proof(&mut self, caller: u64, block_timestamp: u64, payment: Payment) -> (r: Result<(), ContractError>)
        ensures
            Self::add_proof_outcome(old(self), final(self), caller, block_timestamp, payment, r),
    ;

    /// What `claim_refund` guarantees, given the state before and after, its arguments and its result.
    spec fn claim_refund_outcome(pre: &Self, post: &Self, caller: u64, block_timestamp: u64, token_identifier: u64, nonce: u64, r: Result<Effects, ContractError>) -> bool;

    /// Endpoint `claimRefund`: once the compensation of `(token_identifier, nonce)` is
    /// past its end date and the safe period, a holder who deposited a proof takes it
    /// back together with its share of the compensation; a blacklisted holder takes only
    /// its proof back.
    fn claim_refund(&mut self, caller: u64, block_timestamp: u64, token_identifier: u64, nonce: u64) -> (r: Result<Effects, ContractError>)
        ensures
            Self::claim_refund_outcome(old(self), final(self), caller, block_timestamp, token_identifier, nonce, r),
    ;
}

impl LifeBondingContract for LifeBonding {
    open spec fn init_outcome(s: Self) -> bool {
        &&& (s.wf())
        &&& (s.contract_state == State::Inactive)
        &&& (s.minimum_penalty == 500)
        &&& (s.maximum_penalty == 10_000)
        &&& (s.withdraw_penalty == 8_000)
        &&& (s.administrator == 0)
        &&& (s.top_up_administrator == 0)
        &&& (s.liveliness_stake_address == 0)
        &&& (s.bond_payment_token == 0)
        &&& (s.total_bond_amount == 0)
        &&& (s.accepted_callers@ == Seq::<u64>::empty())
        &&& (s.lock_periods@ == Seq::<u64>::empty())
        &&& (s.lock_period_bond_amount@ == Map::<u64, u128>::empty())
        &&& (s.bonds_ids.ids@ == Map::<u128, u64>::empty())
        &&& (s.bonds_ids.last_id == 0)
        &&& (s.bonds@ == Seq::<u64>::empty())
        &&& (s.bond_data@ == Map::<u64, Bond>::empty())
        &&& (s.address_bonds@ == Map::<u64, Vec<u64>>::empty())
        &&& (s.compensations_ids.ids@ == Map::<u128, u64>::empty())
        &&& (s.compensations_ids.last_id == 0)
        &&& (s.compensations@ == Seq::<u64>::empty())
        &&& (s.compensation_data@ == Map::<u64, Compensation>::empty())
        &&& (s.compensation_blacklist@ == Map::<u64, Vec<u64>>::empty())
        &&& (s.address_refund@ == Map::<u128, Refund>::empty())
        &&& (s.address_vault_nonce@ == Map::<u128, u64>::empty())
        &&& (s.accounted())
        &&& (s.proofs_balanced())
    }

    fn init() -> (s: Self)
    {
        let s = LifeBonding {
            contract_state: State::Inactive,
            administrator: 0,
            top_up_administrator: 0,
            liveliness_stake_address: 0,
            bond_payment_token: 0,
            minimum_penalty: 500,
            maximum_penalty: 10_000,
            withdraw_penalty: 8_000,
            accepted_callers: Vec::new(),
            lock_periods: Vec::new(),
            lock_period_bond_amount: HashMap::new(),
            bonds_ids: ObjectToIdMapper::new(),
            bonds: Vec::new(),
            bond_data: HashMap::new(),
            address_bonds: HashMap::new(),
            total_bond_amount: 0,
            compensations_ids: ObjectToIdMapper::new(),
            compensations: Vec::new(),
            compensation_data: HashMap::new(),
            compensation_blacklist: HashMap::new(),
            address_refund: HashMap::new(),
            address_vault_nonce: HashMap::new(),
        };
        assert(s.bonds@.len() == 0);
        proof {
            assert forall|j: u64| s.compensation_at(j).proof_amount == #[trigger] deposits(s.address_refund@, j) by {
                lemma_deposits_empty(j);
            }
        }
        s
    }

    open spec fn upgrade_outcome(pre: &Self, post: &Self) -> bool {
        &&& (*post == (LifeBonding { contract_state: State::Inactive, ..*pre }))
    }

    fn upgrade(&mut self)
    {
        self.contract_state = State::Inactive;
    }

    open spec fn bond_outcome(pre: &Self, post: &Self, caller: u64, caller_is_smart_contract: bool, owner: u64, block_timestamp: u64, original_caller: u64, token_identifier: u64, nonce: u64, lock_period_seconds: u64, payment: Payment, r: Result<Effects, ContractError>) -> bool {
        &&& (match pre.bond_error(caller, caller_is_smart_contract, owner, block_timestamp, token_identifier, nonce, lock_period_seconds, payment) {
                    Some(e) => r matches Err(x) && x == e && *post == *pre,
                    None => r matches Ok(eff) && {
                        &&& pre.bonded(post, block_timestamp, original_caller, token_identifier, nonce, lock_period_seconds, payment)
                        &&& eff.calls@ =~= seq![LivelinessCall::GenerateRewards, LivelinessCall::SetAddressRewardsPerShare(original_caller)]
                        &&& eff.transfers@ =~= Seq::<Transfer>::empty()
                    },
                })
        &&& (pre.wf() ==> post.wf())
        &&& (pre.proofs_balanced() && deposits(pre.address_refund@, pre.compensations_ids.next_id(token_identifier, nonce)) == 0
                    ==> post.proofs_balanced())
        &&& (pre.wf() && pre.accounted() && !pre.bonds@.contains(pre.bonds_ids.next_id(token_identifier, nonce))
                    ==> post.accounted())
    }

    fn bond(
        &mut self,
        caller: u64,
        caller_is_smart_contract: bool,
        owner: u64,
        block_timestamp: u64,
        original_caller: u64,
        token_identifier: u64,
        nonce: u64,
        lock_period_seconds: u64,
        payment: Payment,
    ) -> (r: Result<Effects, ContractError>)
    {
        if self.contract_state != State::Active {
            return Err(ContractError::ContractNotReady);
        }
        let existing_id = self.bonds_ids.get_id(token_identifier, nonce);
        if existing_id == 0 && self.bonds_ids.last_id == u64::MAX {
            return Err(ContractError::Overflow);
        }
        let bond_id = if existing_id != 0 { existing_id } else { self.bonds_ids.last_id + 1 };
        let accepted = (caller_is_smart_contract && set_contains(&self.accepted_callers, caller))
            || caller == owner || caller == self.administrator
            || keyed_contains(&self.address_bonds, caller, bond_id);
        if !accepted {
            return Err(ContractError::CallableOnlyByAcceptedCallers);
        }
        if payment.token_identifier != self.bond_payment_token {
            return Err(ContractError::InvalidTokenIdentifier);
        }
        let bond_amount = match self.lock_period_bond_amount.get(&lock_period_seconds) {
            Some(a) => *a,
            None => 0,
        };
        if !set_contains(&self.lock_periods, lock_period_seconds) || bond_amount == 0 {
            return Err(ContractError::InvalidLockPeriod);
        }
        if payment.amount != bond_amount {
            return Err(ContractError::InvalidAmount);
        }
        let unbond_timestamp = add_u64(block_timestamp, lock_period_seconds)?;
        let total = add_amount(self.total_bond_amount, bond_amount)?;
        if self.compensations_ids.get_id(token_identifier, nonce) == 0 && self.compensations_ids.last_id == u64::MAX {
            return Err(ContractError::Overflow);
        }
        let bond_id = self.bonds_ids.get_id_or_insert(token_identifier, nonce)?;
        self.total_bond_amount = total;
        self.bond_data.insert(
            bond_id,
            Bond {
                address: original_caller,
                token_identifier,
                nonce,
                lock_period: lock_period_seconds,
                bond_timestamp: block_timestamp,
                unbond_timestamp,
                bond_amount: payment.amount,
                remaining_amount: payment.amount,
            },
        );
        keyed_insert(&mut self.address_bonds, original_caller, bond_id);
        set_insert(&mut self.bonds, bond_id);
        let compensation_id = self.compensations_ids.get_id_or_insert(token_identifier, nonce)?;
        set_insert(&mut self.compensations, compensation_id);
        self.compensation_data.insert(
            compensation_id,
            Compensation { token_identifier, nonce, accumulated_amount: 0, proof_amount: 0, end_date: 0 },
        );
        let mut calls: Vec<LivelinessCall> = Vec::new();
        calls.push(LivelinessCall::GenerateRewards);
        calls.push(LivelinessCall::SetAddressRewardsPerShare(original_caller));
        proof {
            if old(self).wf() && old(self).accounted() && !old(self).bonds@.contains(old(self).bonds_ids.next_id(token_identifier, nonce)) {
                assert(old(self).bonded(self, block_timestamp, original_caller, token_identifier, nonce, lock_period_seconds, payment));
                Self::law_bond_keeps_accounts(old(self), self, block_timestamp, original_caller, token_identifier, nonce, lock_period_seconds, payment);
            }
        }
        Ok(Effects { calls, transfers: Vec::new() })
    }

    open spec fn withdraw_outcome(pre: &Self, post: &Self, caller: u64, block_timestamp: u64, token_identifier: u64, nonce: u64, r: Result<Effects, ContractError>) -> bool {
        &&& (match pre.withdraw_error(caller, block_timestamp, token_identifier, nonce) {
                    Some(e) => r matches Err(x) && x == e && *post == *pre,
                    None => r matches Ok(eff) && {
                        let bond = pre.bond_at(pre.bonds_ids.id_of(token_identifier, nonce));
                        &&& pre.withdrawn(post, caller, block_timestamp, token_identifier, nonce)
                        &&& eff.calls@ =~= seq![LivelinessCall::StackRewards(caller)]
                        &&& eff.transfers@ =~= seq![
                            Transfer {
                                to: caller,
                                payment: Payment {
                                    token_identifier: pre.bond_payment_token,
                                    token_nonce: 0,
                                    amount: pre.withdrawal_amount(bond, block_timestamp) as u128,
                                },
                            },
                        ]
                    },
                })
        &&& (pre.wf() ==> post.wf())
        &&& (pre.proofs_balanced() ==> post.proofs_balanced())
        &&& (pre.wf() && pre.accounted() ==> post.accounted())
    }

    fn withdraw(&mut self, caller: u64, block_timestamp: u64, token_identifier: u64, nonce: u64) -> (r: Result<Effects, ContractError>)
    {
        if self.contract_state != State::Active {
            return Err(ContractError::ContractNotReady);
        }
        let bond_id = self.bonds_ids.get_id_non_zero(token_identifier, nonce)?;
        let compensation_id = self.compensations_ids.get_id_non_zero(token_identifier, nonce)?;
        let bond = self.get_bond(bond_id);
        if bond.address != caller {
            return Err(ContractError::BondNotFound);
        }
        let compensation = self.get_compensation(compensation_id);
        let early = bond.unbond_timestamp >= block_timestamp;
        let mut penalty_amount: u128 = 0;
        let mut accumulated = compensation.accumulated_amount;
        if early {
            penalty_amount = match mul_div(bond.bond_amount, self.withdraw_penalty as u128, PENALTY_DENOMINATOR as u128) {
                Ok(p) => p,
                Err(_) => {
                    return Err(ContractError::PenaltiesExceedWithdrawalAmount);
                },
            };
            if bond.remaining_amount <= penalty_amount {
                return Err(ContractError::PenaltiesExceedWithdrawalAmount);
            }
            let kept = sub_amount(bond.bond_amount, penalty_amount)?;
            if kept < compensation.accumulated_amount {
                return Err(ContractError::PenaltiesExceedWithdrawalAmount);
            }
        }
        let total = sub_amount(self.total_bond_amount, bond.remaining_amount)?;
        if early {
            accumulated = add_amount(compensation.accumulated_amount, penalty_amount)?;
        }
        let paid = bond.remaining_amount - penalty_amount;
        self.total_bond_amount = total;
        if early {
            self.compensation_data.insert(
                compensation_id,
                Compensation { accumulated_amount: accumulated, ..compensation },
            );
        } else {
            set_swap_remove(&mut self.compensations, compensation_id);
        }
        self.bond_data.remove(&bond_id);
        set_swap_remove(&mut self.bonds, bond_id);
        keyed_swap_remove(&mut self.address_bonds, caller, bond_id);
        let mut calls: Vec<LivelinessCall> = Vec::new();
        calls.push(LivelinessCall::StackRewards(caller));
        proof {
            if old(self).wf() && old(self).accounted() {
                assert(old(self).withdrawn(self, caller, block_timestamp, token_identifier, nonce));
                Self::law_withdraw_keeps_accounts(old(self), self, caller, block_timestamp, token_identifier, nonce);
            }
        }
        let mut transfers: Vec<Transfer> = Vec::new();
        transfers.push(
            Transfer {
                to: caller,
                payment: Payment { token_identifier: self.bond_payment_token, token_nonce: 0, amount: paid },
            },
        );
        Ok(Effects { calls, transfers })
    }

    open spec fn renew_outcome(pre: &Self, post: &Self, caller: u64, block_timestamp: u64, token_identifier: u64, nonce: u64, r: Result<Effects, ContractError>) -> bool {
        &&& (match pre.renew_error(caller, block_timestamp, token_identifier, nonce) {
                    Some(e) => r matches Err(x) && x == e && *post == *pre,
                    None => r matches Ok(eff) && {
                        let bond_id = pre.bonds_ids.id_of(token_identifier, nonce);
                        let bond = pre.bond_at(bond_id);
                        &&& post.bond_data@ == pre.bond_data@.insert(
                            bond_id,
                            Bond {
                                bond_timestamp: block_timestamp,
                                unbond_timestamp: (block_timestamp + bond.lock_period) as u64,
                                ..bond
                            },
                        )
                        &&& *post == (LifeBonding { bond_data: post.bond_data, ..*pre })
                        &&& eff.calls@ =~= seq![LivelinessCall::StackRewards(caller)]
                        &&& eff.transfers@ =~= Seq::<Transfer>::empty()
                    },
                })
        &&& (pre.wf() ==> post.wf())
        &&& (pre.proofs_balanced() ==> post.proofs_balanced())
        &&& (pre.wf() && pre.accounted() && caller != 0 ==> post.accounted())
    }

    fn renew(&mut self, caller: u64, block_timestamp: u64, token_identifier: u64, nonce: u64) -> (r: Result<Effects, ContractError>)
    {
        if self.contract_state != State::Active {
            return Err(ContractError::ContractNotReady);
        }
        let bond_id = self.bonds_ids.get_id_non_zero(token_identifier, nonce)?;
        let bond = self.get_bond(bond_id);
        if bond.address != caller {
            return Err(ContractError::BondNotFound);
        }
        if !set_contains(&self.lock_periods, bond.lock_period) {
            return Err(ContractError::InvalidLockPeriod);
        }
        let unbond_timestamp = add_u64(block_timestamp, bond.lock_period)?;
        self.bond_data.insert(bond_id, Bond { bond_timestamp: block_timestamp, unbond_timestamp, ..bond });
        proof {
            if old(self).wf() && old(self).accounted() && caller != 0 {
                let nb = Bond { bond_timestamp: block_timestamp, unbond_timestamp, ..bond };
                assert(old(self).bonds@.contains(bond_id));
                lemma_sum_insert(old(self).bond_data@, old(self).bonds@, bond_id, nb);
                assert forall|k: u64| #[trigger] self.bond_data@.contains_key(k) <==> self.bonds@.contains(k) by {
                    assert(self.bond_data@.contains_key(k) == old(self).bond_data@.contains_key(k));
                }
            }
        }
        let mut calls: Vec<LivelinessCall> = Vec::new();
        calls.push(LivelinessCall::StackRewards(caller));
        Ok(Effects { calls, transfers: Vec::new() })
    }

    open spec fn set_vault_nonce_outcome(pre: &Self, post: &Self, caller: u64, token_identifier: u64, nonce: u64, r: Result<(), ContractError>) -> bool {
        &&& (match pre.set_vault_nonce_error(caller, token_identifier, nonce) {
                    Some(e) => r == Err::<(), ContractError>(e) && *post == *pre,
                    None => {
                        &&& r is Ok
                        &&& post.address_vault_nonce@ == pre.address_vault_nonce@.insert(
                            pair_key(caller, token_identifier),
                            nonce,
                        )
                        &&& *post == (LifeBonding { address_vault_nonce: post.address_vault_nonce, ..*pre })
                    },
                })
        &&& (pre.wf() ==> post.wf())
        &&& (pre.proofs_balanced() ==> post.proofs_balanced())
        &&& (pre.accounted() ==> post.accounted())
    }

    fn set_vault_nonce(&mut self, caller: u64, token_identifier: u64, nonce: u64) -> (r: Result<(), ContractError>)
    {
        if self.contract_state != State::Active {
            return Err(ContractError::ContractNotReady);
        }
        let bond_id = self.bonds_ids.get_id_non_zero(token_identifier, nonce)?;
        let bond = self.get_bond(bond_id);
        if bond.address != caller {
            return Err(ContractError::BondNotFound);
        }
        self.address_vault_nonce.insert(make_pair_key(caller, token_identifier), nonce);
        Ok(())
    }

    open spec fn top_up_vault_outcome(pre: &Self, post: &Self, caller: u64, block_timestamp: u64, token_identifier: u64, nonce: u64, payment: Payment, r: Result<Effects, ContractError>) -> bool {
        &&& (match pre.top_up_vault_error(caller, block_timestamp, token_identifier, nonce, payment) {
                    Some(e) => r matches Err(x) && x == e && *post == *pre,
                    None => r matches Ok(eff) && {
                        &&& pre.extended(post, pre.bonds_ids.id_of(token_identifier, nonce), block_timestamp, payment.amount)
                        &&& eff.calls@ =~= seq![LivelinessCall::StackRewards(caller)]
                        &&& eff.transfers@ =~= Seq::<Transfer>::empty()
                    },
                })
        &&& (pre.wf() ==> post.wf())
        &&& (pre.proofs_balanced() ==> post.proofs_balanced())
        &&& (pre.wf() && pre.accounted() && caller != 0 ==> post.accounted())
    }

    fn top_up_vault(&mut self, caller: u64, block_timestamp: u64, token_identifier: u64, nonce: u64, payment: Payment) -> (r: Result<Effects, ContractError>)
    {
        if self.contract_state != State::Active {
            return Err(ContractError::ContractNotReady);
        }
        if self.get_vault_nonce(caller, token_identifier) != nonce {
            return Err(ContractError::VaultNonceNotSet);
        }
        let bond_id = self.bonds_ids.get_id_non_zero(token_identifier, nonce)?;
        let bond = self.get_bond(bond_id);
        if bond.address != caller {
            return Err(ContractError::BondNotFound);
        }
        if payment.token_identifier != self.bond_payment_token {
            return Err(ContractError::InvalidTokenIdentifier);
        }
        self.extend_bond(bond_id, block_timestamp, payment.amount)?;
        let mut calls: Vec<LivelinessCall> = Vec::new();
        calls.push(LivelinessCall::StackRewards(caller));
        Ok(Effects { calls, transfers: Vec::new() })
    }

    open spec fn top_up_address_vault_outcome(pre: &Self, post: &Self, caller: u64, block_timestamp: u64, address: u64, token_identifier: u64, nonce: u64, payment: Payment, r: Result<Effects, ContractError>) -> bool {
        &&& (match pre.top_up_address_vault_error(caller, block_timestamp, address, token_identifier, nonce, payment) {
                    Some(e) => r matches Err(x) && x == e && *post == *pre,
                    None => r matches Ok(eff) && {
                        &&& pre.extended(post, pre.bonds_ids.id_of(token_identifier, nonce), block_timestamp, payment.amount)
                        &&& eff.calls@ =~= seq![LivelinessCall::StackRewards(caller)]
                        &&& eff.transfers@ =~= Seq::<Transfer>::empty()
                    },
                })
        &&& (pre.wf() ==> post.wf())
        &&& (pre.proofs_balanced() ==> post.proofs_balanced())
        &&& (pre.wf() && pre.accounted() && caller != 0 ==> post.accounted())
    }

    fn top_up_address_vault(&mut self, caller: u64, block_timestamp: u64, address: u64, token_identifier: u64, nonce: u64, payment: Payment) -> (r: Result<Effects, ContractError>)
    {
        if self.contract_state != State::Active {
            return Err(ContractError::ContractNotReady);
        }
        if self.get_vault_nonce(address, token_identifier) != nonce {
            return Err(ContractError::VaultNonceNotSet);
        }
        if caller != self.top_up_administrator {
            return Err(ContractError::CallableOnlyByAcceptedCallers);
        }
        let bond_id = self.bonds_ids.get_id_non_zero(token_identifier, nonce)?;
        let bond = self.get_bond(bond_id);
        if bond.address != caller {
            return Err(ContractError::BondNotFound);
        }
        if payment.token_identifier != self.bond_payment_token {
            return Err(ContractError::InvalidTokenIdentifier);
        }
        self.extend_bond(bond_id, block_timestamp, payment.amount)?;
        let mut calls: Vec<LivelinessCall> = Vec::new();
        calls.push(LivelinessCall::StackRewards(caller));
        Ok(Effects { calls, transfers: Vec::new() })
    }

    open spec fn stake_rewards_outcome(pre: &Self, post: &Self, caller: u64, block_timestamp: u64, original_caller: u64, token_identifier: u64, amount: u128, r: Result<(), ContractError>) -> bool {
        &&& (match pre.stake_rewards_error(caller, block_timestamp, original_caller, token_identifier, amount) {
                    Some(e) => r == Err::<(), ContractError>(e) && *post == *pre,
                    None => r is Ok && pre.extended(
                        post,
                        pre.bonds_ids.id_of(token_identifier, pre.vault_nonce_of(original_caller, token_identifier)),
                        block_timestamp,
                        amount,
                    ),
                })
        &&& (pre.wf() ==> post.wf())
        &&& (pre.proofs_balanced() ==> post.proofs_balanced())
        &&& (pre.wf() && pre.accounted() && original_caller != 0 ==> post.accounted())
    }

    fn stake_rewards(&mut self, caller: u64, block_timestamp: u64, original_caller: u64, token_identifier: u64, amount: u128) -> (r: Result<(), ContractError>)
    {
        if self.contract_state != State::Active {
            return Err(ContractError::ContractNotReady);
        }
        if caller != self.liveliness_stake_address {
            return Err(ContractError::CallableOnlyByAcceptedCallers);
        }
        let vault_nonce = self.get_vault_nonce(original_caller, token_identifier);
        if vault_nonce == 0 {
            return Err(ContractError::VaultNonceNotSet);
        }
        let bond_id = self.bonds_ids.get_id_non_zero(token_identifier, vault_nonce)?;
        let bond = self.get_bond(bond_id);
        if bond.address != original_caller {
            return Err(ContractError::BondNotFound);
        }
        self.extend_bond(bond_id, block_timestamp, amount)
    }

    open spec fn add_proof_outcome(pre: &Self, post: &Self, caller: u64, block_timestamp: u64, payment: Payment, r: Result<(), ContractError>) -> bool {
        &&& (match pre.add_proof_error(block_timestamp, payment) {
                    Some(e) => r == Err::<(), ContractError>(e) && *post == *pre,
                    None => r is Ok && pre.proof_added(post, caller, payment),
                })
        &&& (pre.wf() ==> post.wf())
        &&& (pre.proofs_balanced() && pre.refund_of(
                    caller,
                    pre.compensations_ids.id_of(payment.token_identifier, payment.token_nonce),
                ) is None ==> post.proofs_balanced())
        &&& (pre.accounted() ==> post.accounted())
    }

    fn add_proof(&mut self, caller: u64, block_timestamp: u64, payment: Payment) -> (r: Result<(), ContractError>)
    {
        if self.contract_state != State::Active {
            return Err(ContractError::ContractNotReady);
        }
        let compensation_id = self.compensations_ids.get_id_non_zero(payment.token_identifier, payment.token_nonce)?;
        let compensation = self.get_compensation(compensation_id);
        if !(block_timestamp <= compensation.end_date && compensation.end_date != 0) {
            return Err(ContractError::InvalidTimelineToProof);
        }
        let proof_amount = add_amount(compensation.proof_amount, payment.amount)?;
        self.compensation_data.insert(compensation_id, Compensation { proof_amount, ..compensation });
        self.address_refund.insert(
            make_pair_key(caller, compensation_id),
            Refund { compensation_id, address: caller, proof_of_refund: payment },
        );
        proof {
            if old(self).proofs_balanced() && old(self).refund_of(caller, compensation_id) is None {
                assert(old(self).proof_added(self, caller, payment));
                Self::law_proof_keeps_balance(old(self), self, caller, payment);
            }
        }
        Ok(())
    }

    open spec fn claim_refund_outcome(pre: &Self, post: &Self, caller: u64, block_timestamp: u64, token_identifier: u64, nonce: u64, r: Result<Effects, ContractError>) -> bool {
        &&& (match pre.claim_refund_error(caller, block_timestamp, token_identifier, nonce) {
                    Some(e) => r matches Err(x) && x == e && *post == *pre,
                    None => r matches Ok(eff) && {
                        let compensation_id = pre.compensations_ids.id_of(token_identifier, nonce);
                        &&& pre.refund_claimed(post, caller, compensation_id)
                        &&& eff.calls@ =~= Seq::<LivelinessCall>::empty()
                        &&& eff.transfers@ =~= pre.refund_transfers(caller, compensation_id)
                    },
                })
        &&& (pre.wf() ==> post.wf())
        &&& (pre.proofs_balanced() ==> post.proofs_balanced())
        &&& (pre.accounted() ==> post.accounted())
    }

    fn claim_refund(&mut self, caller: u64, block_timestamp: u64, token_identifier: u64, nonce: u64) -> (r: Result<Effects, ContractError>)
    {
        if self.contract_state != State::Active {
            return Err(ContractError::ContractNotReady);
        }
        let compensation_id = self.compensations_ids.get_id_non_zero(token_identifier, nonce)?;
        let compensation = self.get_compensation(compensation_id);
        let refund_start = add_u64(compensation.end_date, COMPENSATION_SAFE_PERIOD)?;
        if block_timestamp <= refund_start {
            return Err(ContractError::InvalidTimelineToRefund);
        }
        let refund_key = make_pair_key(caller, compensation_id);
        let refund = match self.address_refund.get(&refund_key) {
            Some(r) => *r,
            None => {
                return Err(ContractError::RefundNotFound);
            },
        };
        let blacklisted = keyed_contains(&self.compensation_blacklist, compensation_id, caller);
        let mut transfers: Vec<Transfer> = Vec::new();
        let updated: Compensation;
        if blacklisted {
            let proof_amount = sub_amount(compensation.proof_amount, refund.proof_of_refund.amount)?;
            updated = Compensation { proof_amount, ..compensation };
            if refund.proof_of_refund.amount > 0 {
                transfers.push(Transfer { to: caller, payment: refund.proof_of_refund });
            }
            keyed_swap_remove(&mut self.compensation_blacklist, compensation_id, caller);
        } else {
            let sum_of_blacklist_refunds = match self.sum_of_blacklist_refunds(compensation_id) {
                Ok(v) => v,
                Err(_) => {
                    return Err(ContractError::NegativeResult);
                },
            };
            let unblocked = sub_amount(compensation.proof_amount, sum_of_blacklist_refunds)?;
            let compensation_per_token = div_amount(compensation.accumulated_amount, unblocked)?;
            let refund_amount = match mul_amount(refund.proof_of_refund.amount, compensation_per_token) {
                Ok(v) => v,
                Err(_) => {
                    return Err(ContractError::NegativeResult);
                },
            };
            let accumulated_amount = sub_amount(compensation.accumulated_amount, refund_amount)?;
            let proof_amount = sub_amount(compensation.proof_amount, refund.proof_of_refund.amount)?;
            updated = Compensation { accumulated_amount, proof_amount, ..compensation };
            transfers.push(Transfer { to: caller, payment: refund.proof_of_refund });
            transfers.push(
                Transfer {
                    to: caller,
                    payment: Payment { token_identifier: self.bond_payment_token, token_nonce: 0, amount: refund_amount },
                },
            );
        }
        self.address_refund.remove(&refund_key);
        self.compensation_data.insert(compensation_id, updated);
        if updated.accumulated_amount == 0 && updated.proof_amount == 0 {
            set_swap_remove(&mut self.compensations, compensation_id);
        }
        proof {
            if old(self).proofs_balanced() {
                assert(old(self).refund_claimed(self, caller, compensation_id));
                Self::law_refund_keeps_balance(old(self), self, caller, block_timestamp, token_identifier, nonce);
            }
        }
        Ok(Effects { calls: Vec::new(), transfers })
    }
}

} // verus!
