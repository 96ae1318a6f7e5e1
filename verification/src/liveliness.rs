use vstd::prelude::*;
use std::collections::HashMap;
use crate::types::{State, ContractError, Payment, Transfer, MAX_PERCENT, FULL_LIVELINESS_SCORE};
use crate::arith::{mul_div, sub_amount};
use crate::rewards::{RewardsModule, RewardsStorage, StorageCache, stored};

verus! {

broadcast use vstd::std_specs::hash::group_hash_axioms;

/// What the bond contract reports of an address: the total bond amount, the address's
/// own bonded amount and its liveliness score (in hundredths of a percent).
#[derive(Clone, Copy, Debug, PartialEq, Eq, Structural)]
pub struct BondsInfo {
    pub total_staked_amount: u128,
    pub user_stake_amount: u128,
    pub liveliness_score: u128,
}

/// The call that the stake contract makes on the bond contract's `stakeRewards`
/// endpoint: its arguments, and the payment that goes along with it.
#[derive(Clone, Copy, Debug, PartialEq, Eq, Structural)]
pub struct StakeRewardsCall {
    pub original_caller: u64,
    pub token_identifier: u64,
    pub amount: u128,
    pub payment: Payment,
}

/// What the liveliness-stake contract reports of its rewards and settings.
#[derive(Clone, Copy, Debug, PartialEq, Eq, Structural)]
pub struct ContractDetails {
    pub rewards_reserve: u128,
    pub accumulated_rewards: u128,
    pub rewards_token_identifier: u64,
    pub rewards_per_block: u128,
    pub rewards_per_share: u128,
    pub administrator: u64,
    pub bond_contract_address: u64,
    pub last_reward_block_nonce: u64,
    pub max_apr: u128,
}

/// The state of the liveliness-stake contract.
pub struct LivelinessStake {
    pub contract_state: State,
    pub administrator: u64,
    pub bond_contract_address: u64,
    pub rewards_token_identifier: u64,
    pub rewards: RewardsStorage,
}

/// Part of the stacked rewards that a staker of the given liveliness score receives:
/// all of it from `FULL_LIVELINESS_SCORE` on, else the score's percentage of it.
pub open spec fn payable_rewards(liveliness_score: u128, stacked: int) -> int {
    if liveliness_score < FULL_LIVELINESS_SCORE {
        liveliness_score * stacked / (MAX_PERCENT as int)
    } else {
        stacked
    }
}

impl LivelinessStake {
    /// The contract's rewards and settings as stored.
    pub fn contract_details(&self) -> (d: ContractDetails)
        ensures
            d == (ContractDetails {
                rewards_reserve: self.rewards.cache.rewards_reserve,
                accumulated_rewards: self.rewards.cache.accumulated_rewards,
                rewards_token_identifier: self.rewards_token_identifier,
                rewards_per_block: self.rewards.cache.rewards_per_block,
                rewards_per_share: self.rewards.cache.rewards_per_share,
                administrator: self.administrator,
                bond_contract_address: self.bond_contract_address,
                last_reward_block_nonce: self.rewards.cache.last_reward_block_nonce,
                max_apr: self.rewards.max_apr,
            }),
    {
        ContractDetails {
            rewards_reserve: self.rewards.cache.rewards_reserve,
            accumulated_rewards: self.rewards.cache.accumulated_rewards,
            rewards_token_identifier: self.rewards_token_identifier,
            rewards_per_block: self.rewards.cache.rewards_per_block,
            rewards_per_share: self.rewards.cache.rewards_per_share,
            administrator: self.administrator,
            bond_contract_address: self.bond_contract_address,
            last_reward_block_nonce: self.rewards.cache.last_reward_block_nonce,
            max_apr: self.rewards.max_apr,
        }
    }

    pub open spec fn ready(&self) -> bool {
        self.contract_state == State::Active
    }

    /// The cache once the rewards since the last allocation are allocated.
    pub open spec fn cache_after_generation(&self, current: u64, total_bond_amount: u128) -> StorageCache {
        self.rewards.generated(self.rewards.cache, current, total_bond_amount)
    }

    /// The first error met when the rewards are allocated and the share of `address` is
    /// computed, if any.
    pub open spec fn update_error(&self, address: u64, current: u64, total_bond_amount: u128, total_staked: u128, user_stake: u128) -> Option<ContractError> {
        match self.rewards.generate_error(self.rewards.cache, current, total_bond_amount) {
            Some(e) => Some(e),
            None => self.rewards.share_error(
                self.cache_after_generation(current, total_bond_amount),
                address,
                total_staked,
                user_stake,
            ),
        }
    }

    /// The rewards that `address` earns when the rewards are allocated and its share is
    /// computed.
    pub open spec fn earned(&self, address: u64, current: u64, total_bond_amount: u128, total_staked: u128, user_stake: u128) -> int {
        let c = self.cache_after_generation(current, total_bond_amount);
        if RewardsStorage::share_applies(c, total_staked) {
            self.rewards.user_rewards(c, address, user_stake)
        } else {
            0
        }
    }

    /// `new` is `self` after the rewards are allocated and the share of `address` is
    /// computed.
    pub open spec fn updated(&self, new: &Self, address: u64, current: u64, total_bond_amount: u128, total_staked: u128, user_stake: u128) -> bool {
        let c = self.cache_after_generation(current, total_bond_amount);
        &&& new.contract_state == self.contract_state
        &&& new.administrator == self.administrator
        &&& new.bond_contract_address == self.bond_contract_address
        &&& new.rewards_token_identifier == self.rewards_token_identifier
        &&& new.rewards.rewards_state == self.rewards.rewards_state
        &&& new.rewards.max_apr == self.rewards.max_apr
        &&& new.rewards.cache == c
        &&& new.rewards.address_last_reward_per_share@ == self.rewards.last_after_share(c, address, total_staked)
        &&& new.rewards.address_stack_rewards@ == self.rewards.stack_after_share(c, address, total_staked, user_stake)
    }

    /// Allocates the rewards, then computes the share of `address`; returns its earned
    /// rewards.
    fn update_rewards(&mut self, address: u64, current_block_nonce: u64, total_bond_amount: u128, total_staked: u128, user_stake: u128) -> (r: Result<u128, ContractError>)
        ensures
            match old(self).update_error(address, current_block_nonce, total_bond_amount, total_staked, user_stake) {
                Some(e) => r == Err::<u128, ContractError>(e) && *final(self) == *old(self),
                None => {
                    &&& r == Ok::<u128, ContractError>(old(self).earned(address, current_block_nonce, total_bond_amount, total_staked, user_stake) as u128)
                    &&& old(self).updated(final(self), address, current_block_nonce, total_bond_amount, total_staked, user_stake)
                },
            },
    {
        let mut storage_cache = self.rewards.cache;
        self.rewards.generate_aggregated_rewards(&mut storage_cache, current_block_nonce, total_bond_amount)?;
        let earned = self.rewards.calculate_caller_share_in_rewards(address, total_staked, user_stake, &storage_cache)?;
        self.rewards.cache = storage_cache;
        Ok(earned)
    }

    /// The rewards stacked for `caller` once its share is computed.
    pub open spec fn stacked_after_update(&self, caller: u64, current: u64, total_bond_amount: u128, info: BondsInfo) -> nat {
        let c = self.cache_after_generation(current, total_bond_amount);
        stored(self.rewards.stack_after_share(c, caller, info.total_staked_amount, info.user_stake_amount), caller)
    }

    /// The rewards paid out to `caller` by a claim: its stacked rewards, reduced by its
    /// liveliness score.
    pub open spec fn claim_amount(&self, caller: u64, current: u64, total_bond_amount: u128, info: BondsInfo) -> int {
        payable_rewards(info.liveliness_score, self.stacked_after_update(caller, current, total_bond_amount, info) as int)
    }

    /// The first error that a claim of `caller` meets, if any.
    pub open spec fn claim_error(&self, caller: u64, current: u64, total_bond_amount: u128, info: BondsInfo) -> Option<ContractError> {
        let stacked = self.stacked_after_update(caller, current, total_bond_amount, info);
        let paid = self.claim_amount(caller, current, total_bond_amount, info);
        let c = self.cache_after_generation(current, total_bond_amount);
        if !self.ready() {
            Some(ContractError::ContractNotReady)
        } else if self.update_error(caller, current, total_bond_amount, info.total_staked_amount, info.user_stake_amount) is Some {
            self.update_error(caller, current, total_bond_amount, info.total_staked_amount, info.user_stake_amount)
        } else if paid > 0 && c.accumulated_rewards < paid {
            Some(ContractError::NegativeResult)
        } else {
            None
        }
    }

    /// `new` is `self` after a claim of `caller`: the rewards are allocated and its share
    /// computed; then, where something is paid, it leaves the accumulated rewards and all
    /// that `caller` had stacked is cleared (the part its liveliness score withholds is
    /// forfeited).
    pub open spec fn claimed(&self, new: &Self, caller: u64, current: u64, total_bond_amount: u128, info: BondsInfo) -> bool {
        let c = self.cache_after_generation(current, total_bond_amount);
        let paid = self.claim_amount(caller, current, total_bond_amount, info);
        let stack = self.rewards.stack_after_share(c, caller, info.total_staked_amount, info.user_stake_amount);
        &&& new.contract_state == self.contract_state
        &&& new.administrator == self.administrator
        &&& new.bond_contract_address == self.bond_contract_address
        &&& new.rewards_token_identifier == self.rewards_token_identifier
        &&& new.rewards.rewards_state == self.rewards.rewards_state
        &&& new.rewards.max_apr == self.rewards.max_apr
        &&& new.rewards.address_last_reward_per_share@ == self.rewards.last_after_share(c, caller, info.total_staked_amount)
        &&& if paid > 0 {
            &&& new.rewards.cache == (StorageCache { accumulated_rewards: (c.accumulated_rewards - paid) as u128, ..c })
            &&& new.rewards.address_stack_rewards@ == stack.remove(caller)
        } else {
            &&& new.rewards.cache == c
            &&& new.rewards.address_stack_rewards@ == stack
        }
    }

    /// Allocates the rewards, computes `caller`'s share and takes what it may receive of
    /// its stacked rewards; returns that amount.
    fn take_stacked_rewards(&mut self, caller: u64, current_block_nonce: u64, total_bond_amount: u128, info: BondsInfo) -> (r: Result<u128, ContractError>)
        ensures
            match old(self).claim_error(caller, current_block_nonce, total_bond_amount, info) {
                Some(e) => r == Err::<u128, ContractError>(e) && *final(self) == *old(self),
                None => {
                    &&& r == Ok::<u128, ContractError>(old(self).claim_amount(caller, current_block_nonce, total_bond_amount, info) as u128)
                    &&& old(self).claimed(final(self), caller, current_block_nonce, total_bond_amount, info)
                },
            },
    {
        if self.contract_state != State::Active {
            return Err(ContractError::ContractNotReady);
        }
        let mut storage_cache = self.rewards.cache;
        self.rewards.generate_aggregated_rewards(&mut storage_cache, current_block_nonce, total_bond_amount)?;
        let (_, stacked) = self.rewards.compute_share(caller, info.total_staked_amount, info.user_stake_amount, &storage_cache)?;
        let share_applies = info.total_staked_amount > 0 && storage_cache.accumulated_rewards > 0;
        let mut stack_rewards = stacked;
        if info.liveliness_score < FULL_LIVELINESS_SCORE {
            assert(info.liveliness_score * stack_rewards / 10_000 <= stack_rewards) by (nonlinear_arith)
                requires info.liveliness_score < 9_500, stack_rewards >= 0;
            stack_rewards = mul_div(info.liveliness_score, stack_rewards, MAX_PERCENT as u128)?;
        }
        if stack_rewards > 0 {
            let accumulated = sub_amount(storage_cache.accumulated_rewards, stack_rewards)?;
            storage_cache.accumulated_rewards = accumulated;
        }
        let ghost before = self.rewards.address_stack_rewards@;
        if share_applies {
            self.rewards.address_last_reward_per_share.insert(caller, storage_cache.rewards_per_share);
        }
        if stack_rewards > 0 {
            self.rewards.address_stack_rewards.remove(&caller);
            assert(self.rewards.address_stack_rewards@ =~= before.insert(caller, stacked).remove(caller));
        } else if share_applies {
            self.rewards.address_stack_rewards.insert(caller, stacked);
        }
        self.rewards.cache = storage_cache;
        Ok(stack_rewards)
    }


    /// A claim pays at most the rewards stacked for the caller, and takes exactly what it
    /// pays from the accumulated rewards.
    pub proof fn law_claim_pays_from_accumulated(&self, new: &Self, caller: u64, current: u64, total_bond_amount: u128, info: BondsInfo)
        requires
            self.claim_error(caller, current, total_bond_amount, info) is None,
            self.claimed(new, caller, current, total_bond_amount, info),
        ensures
            0 <= self.claim_amount(caller, current, total_bond_amount, info)
                <= self.stacked_after_update(caller, current, total_bond_amount, info),
            new.rewards.cache.accumulated_rewards == self.cache_after_generation(current, total_bond_amount).accumulated_rewards
                - self.claim_amount(caller, current, total_bond_amount, info),
    {
        let stacked = self.stacked_after_update(caller, current, total_bond_amount, info);
        if info.liveliness_score < FULL_LIVELINESS_SCORE {
            assert(info.liveliness_score * stacked / 10_000 <= stacked) by (nonlinear_arith)
                requires info.liveliness_score < 9_500, stacked >= 0;
            assert(info.liveliness_score * stacked / 10_000 >= 0) by (nonlinear_arith)
                requires info.liveliness_score >= 0, stacked >= 0;
        }
    }

    /// Rewards are paid once: a second claim by the same caller in the same block, with
    /// the same reports of the bond contract, pays nothing.
    pub proof fn law_second_claim_pays_nothing(&self, new: &Self, caller: u64, current: u64, total_bond_amount: u128, info: BondsInfo)
        requires
            self.claim_error(caller, current, total_bond_amount, info) is None,
            self.claimed(new, caller, current, total_bond_amount, info),
        ensures
            new.claim_amount(caller, current, total_bond_amount, info) == 0,
    {
        let c = self.cache_after_generation(current, total_bond_amount);
        let paid = self.claim_amount(caller, current, total_bond_amount, info);
        self.law_claim_pays_from_accumulated(new, caller, current, total_bond_amount, info);
        assert(new.rewards.cache.last_reward_block_nonce == c.last_reward_block_nonce);
        new.rewards.lemma_settled(new.rewards.cache, current, total_bond_amount);
        assert(new.cache_after_generation(current, total_bond_amount) == new.rewards.cache);
        let c2 = new.rewards.cache;
        if RewardsStorage::share_applies(c2, info.total_staked_amount) {
            assert(RewardsStorage::share_applies(c, info.total_staked_amount));
            assert(stored(new.rewards.address_last_reward_per_share@, caller) == c.rewards_per_share);
            assert(c2.rewards_per_share == c.rewards_per_share);
            assert(new.rewards.user_rewards(c2, caller, info.user_stake_amount) == 0);
        }
        let stacked2 = new.stacked_after_update(caller, current, total_bond_amount, info);
        if paid > 0 {
            assert(stacked2 == 0);
        } else {
            assert(stacked2 == self.stacked_after_update(caller, current, total_bond_amount, info));
        }
    }
}

/// The endpoints of the liveliness-stake contract.
pub trait CoreMxLivelinessStake: Sized {
    /// What `init` guarantees, of the deployed state.
    spec fn init_outcome(s: Self) -> bool;

    /// Deploys the contract: inactive, with no rewards and no addresses set.
    fn init() -> (s: Self)
        ensures
            Self::init_outcome(s),
    ;

    /// What `upgrade` guarantees, given the state before and after.
    spec fn upgrade_outcome(pre: &Self, post: &Self) -> bool;

    /// Upgrades the contract, which leaves it inactive.
    fn upgrade(&mut self)
        ensures
            Self::upgrade_outcome(old(self), final(self)),
    ;

    /// What `stack_rewards` guarantees, given the state before and after, its arguments and its result.
    spec fn stack_rewards_outcome(pre: &Self, post: &Self, caller: u64, address: u64, current_block_nonce: u64, total_bond_amount: u128, total_staked: u128, user_stake: u128, r: Result<u128, ContractError>) -> bool;

    /// Endpoint `stackRewards`, callable by the bond contract only: allocates the rewards
    /// and stacks the share that `address` earned; returns it. `total_bond_amount` is the
    /// bond contract's total bond amount; `total_staked` and `user_stake` are what it
    /// reports of `address`.
    fn stack_rewards(
        &mut self,
        caller: u64,
        address: u64,
        current_block_nonce: u64,
        total_bond_amount: u128,
        total_staked: u128,
        user_stake: u128,
    ) -> (r: Result<u128, ContractError>)
        ensures
            Self::stack_rewards_outcome(old(self), final(self), caller, address, current_block_nonce, total_bond_amount, total_staked, user_stake, r),
    ;

    /// What `set_address_rewards_per_share` guarantees, given the state before and after, its arguments and its result.
    spec fn set_address_rewards_per_share_outcome(pre: &Self, post: &Self, caller: u64, address: u64, current_block_nonce: u64, total_bond_amount: u128, total_staked: u128, user_stake: u128, r: Result<(), ContractError>) -> bool;

    /// Endpoint `setAddressRewardsPerShare`, callable by the bond contract only: an
    /// address without a recorded rewards per share starts from the current one; for any
    /// other address its rewards are stacked as by `stack_rewards`.
    fn set_address_rewards_per_share(
        &mut self,
        caller: u64,
        address: u64,
        current_block_nonce: u64,
        total_bond_amount: u128,
        total_staked: u128,
        user_stake: u128,
    ) -> (r: Result<(), ContractError>)
        ensures
            Self::set_address_rewards_per_share_outcome(old(self), final(self), caller, address, current_block_nonce, total_bond_amount, total_staked, user_stake, r),
    ;

    /// What `claim_rewards` guarantees, given the state before and after, its arguments and its result.
    spec fn claim_rewards_outcome(pre: &Self, post: &Self, caller: u64, current_block_nonce: u64, total_bond_amount: u128, info: BondsInfo, r: Result<Option<Transfer>, ContractError>) -> bool;

    /// Endpoint `claimRewards`: allocates the rewards, stacks `caller`'s share and pays
    /// it what its liveliness score allows of its stacked rewards, in the rewards token.
    /// `info` is what the bond contract reports of `caller`.
    fn claim_rewards(&mut self, caller: u64, current_block_nonce: u64, total_bond_amount: u128, info: BondsInfo) -> (r: Result<Option<Transfer>, ContractError>)
        ensures
            Self::claim_rewards_outcome(old(self), final(self), caller, current_block_nonce, total_bond_amount, info, r),
    ;

    /// What `stake_rewards` guarantees, given the state before and after, its arguments and its result.
    spec fn stake_rewards_outcome(pre: &Self, post: &Self, caller: u64, token_identifier: u64, current_block_nonce: u64, total_bond_amount: u128, info: BondsInfo, r: Result<Option<StakeRewardsCall>, ContractError>) -> bool;

    /// Endpoint `stakeRewards`: as `claim_rewards`, but the rewards go to the bond
    /// contract, which adds them to `caller`'s vault bond of `token_identifier`.
    fn stake_rewards(&mut self, caller: u64, token_identifier: u64, current_block_nonce: u64, total_bond_amount: u128, info: BondsInfo) -> (r: Result<Option<StakeRewardsCall>, ContractError>)
        ensures
            Self::stake_rewards_outcome(old(self), final(self), caller, token_identifier, current_block_nonce, total_bond_amount, info, r),
    ;
}

impl CoreMxLivelinessStake for LivelinessStake {
    open spec fn init_outcome(s: Self) -> bool {
        &&& (s.contract_state == State::Inactive)
        &&& (s.administrator == 0)
        &&& (s.bond_contract_address == 0)
        &&& (s.rewards_token_identifier == 0)
        &&& (s.rewards.rewards_state == State::Inactive)
        &&& (s.rewards.max_apr == 0)
        &&& (s.rewards.cache == (StorageCache {
                    rewards_reserve: 0,
                    accumulated_rewards: 0,
                    rewards_per_share: 0,
                    rewards_per_block: 0,
                    last_reward_block_nonce: 0,
                }))
        &&& (s.rewards.address_last_reward_per_share@ == Map::<u64, u128>::empty())
        &&& (s.rewards.address_stack_rewards@ == Map::<u64, u128>::empty())
    }

    fn init() -> (s: Self)
    {
        LivelinessStake {
            contract_state: State::Inactive,
            administrator: 0,
            bond_contract_address: 0,
            rewards_token_identifier: 0,
            rewards: RewardsStorage {
                rewards_state: State::Inactive,
                max_apr: 0,
                cache: StorageCache {
                    rewards_reserve: 0,
                    accumulated_rewards: 0,
                    rewards_per_share: 0,
                    rewards_per_block: 0,
                    last_reward_block_nonce: 0,
                },
                address_last_reward_per_share: HashMap::new(),
                address_stack_rewards: HashMap::new(),
            },
        }
    }

    open spec fn upgrade_outcome(pre: &Self, post: &Self) -> bool {
        &&& (*post == (LivelinessStake { contract_state: State::Inactive, ..*pre }))
    }

    fn upgrade(&mut self)
    {
        self.contract_state = State::Inactive;
    }

    open spec fn stack_rewards_outcome(pre: &Self, post: &Self, caller: u64, address: u64, current_block_nonce: u64, total_bond_amount: u128, total_staked: u128, user_stake: u128, r: Result<u128, ContractError>) -> bool {
        &&& (!pre.ready() ==> r == Err::<u128, ContractError>(ContractError::ContractNotReady))
        &&& (pre.ready() && caller != pre.bond_contract_address ==> r == Err::<u128, ContractError>(
                    ContractError::CallableOnlyByAcceptedCallers,
                ))
        &&& (pre.ready() && caller == pre.bond_contract_address ==> match pre.update_error(address, current_block_nonce, total_bond_amount, total_staked, user_stake) {
                    Some(e) => r == Err::<u128, ContractError>(e),
                    None => {
                        &&& r == Ok::<u128, ContractError>(pre.earned(address, current_block_nonce, total_bond_amount, total_staked, user_stake) as u128)
                        &&& pre.updated(post, address, current_block_nonce, total_bond_amount, total_staked, user_stake)
                    },
                })
        &&& (r is Err ==> *post == *pre)
    }

    fn stack_rewards(
        &mut self,
        caller: u64,
        address: u64,
        current_block_nonce: u64,
        total_bond_amount: u128,
        total_staked: u128,
        user_stake: u128,
    ) -> (r: Result<u128, ContractError>)
    {
        if self.contract_state != State::Active {
            return Err(ContractError::ContractNotReady);
        }
        if caller != self.bond_contract_address {
            return Err(ContractError::CallableOnlyByAcceptedCallers);
        }
        self.update_rewards(address, current_block_nonce, total_bond_amount, total_staked, user_stake)
    }

    open spec fn set_address_rewards_per_share_outcome(pre: &Self, post: &Self, caller: u64, address: u64, current_block_nonce: u64, total_bond_amount: u128, total_staked: u128, user_stake: u128, r: Result<(), ContractError>) -> bool {
        &&& (caller != pre.bond_contract_address ==> r == Err::<(), ContractError>(
                    ContractError::CallableOnlyByAcceptedCallers,
                ))
        &&& (caller == pre.bond_contract_address && stored(pre.rewards.address_last_reward_per_share@, address) == 0 ==> {
                    &&& r is Ok
                    &&& *post == (LivelinessStake {
                        rewards: RewardsStorage {
                            address_last_reward_per_share: post.rewards.address_last_reward_per_share,
                            ..pre.rewards
                        },
                        ..*pre
                    })
                    &&& post.rewards.address_last_reward_per_share@ == pre.rewards.address_last_reward_per_share@.insert(
                        address,
                        pre.rewards.cache.rewards_per_share,
                    )
                })
        &&& (caller == pre.bond_contract_address && stored(pre.rewards.address_last_reward_per_share@, address) != 0 ==> {
                    &&& !pre.ready() ==> r == Err::<(), ContractError>(ContractError::ContractNotReady)
                    &&& pre.ready() ==> match pre.update_error(address, current_block_nonce, total_bond_amount, total_staked, user_stake) {
                        Some(e) => r == Err::<(), ContractError>(e),
                        None => r is Ok && pre.updated(post, address, current_block_nonce, total_bond_amount, total_staked, user_stake),
                    }
                })
        &&& (r is Err ==> *post == *pre)
    }

    fn set_address_rewards_per_share(
        &mut self,
        caller: u64,
        address: u64,
        current_block_nonce: u64,
        total_bond_amount: u128,
        total_staked: u128,
        user_stake: u128,
    ) -> (r: Result<(), ContractError>)
    {
        if caller != self.bond_contract_address {
            return Err(ContractError::CallableOnlyByAcceptedCallers);
        }
        let recorded = match self.rewards.address_last_reward_per_share.get(&address) {
            Some(v) => *v,
            None => 0,
        };
        if recorded == 0 {
            let rewards_per_share = self.rewards.cache.rewards_per_share;
            self.rewards.address_last_reward_per_share.insert(address, rewards_per_share);
            Ok(())
        } else {
            self.stack_rewards(caller, address, current_block_nonce, total_bond_amount, total_staked, user_stake)?;
            Ok(())
        }
    }

    open spec fn claim_rewards_outcome(pre: &Self, post: &Self, caller: u64, current_block_nonce: u64, total_bond_amount: u128, info: BondsInfo, r: Result<Option<Transfer>, ContractError>) -> bool {
        &&& (match pre.claim_error(caller, current_block_nonce, total_bond_amount, info) {
                    Some(e) => r == Err::<Option<Transfer>, ContractError>(e) && *post == *pre,
                    None => {
                        let paid = pre.claim_amount(caller, current_block_nonce, total_bond_amount, info);
                        &&& pre.claimed(post, caller, current_block_nonce, total_bond_amount, info)
                        &&& r == Ok::<Option<Transfer>, ContractError>(if paid > 0 {
                            Some(Transfer {
                                to: caller,
                                payment: Payment {
                                    token_identifier: pre.rewards_token_identifier,
                                    token_nonce: 0,
                                    amount: paid as u128,
                                },
                            })
                        } else {
                            None
                        })
                    },
                })
    }

    fn claim_rewards(&mut self, caller: u64, current_block_nonce: u64, total_bond_amount: u128, info: BondsInfo) -> (r: Result<Option<Transfer>, ContractError>)
    {
        let paid = self.take_stacked_rewards(caller, current_block_nonce, total_bond_amount, info)?;
        if paid > 0 {
            Ok(Some(Transfer {
                to: caller,
                payment: Payment {
                    token_identifier: self.rewards_token_identifier,
                    token_nonce: 0,
                    amount: paid,
                },
            }))
        } else {
            Ok(None)
        }
    }

    open spec fn stake_rewards_outcome(pre: &Self, post: &Self, caller: u64, token_identifier: u64, current_block_nonce: u64, total_bond_amount: u128, info: BondsInfo, r: Result<Option<StakeRewardsCall>, ContractError>) -> bool {
        &&& (match pre.claim_error(caller, current_block_nonce, total_bond_amount, info) {
                    Some(e) => r == Err::<Option<StakeRewardsCall>, ContractError>(e) && *post == *pre,
                    None => {
                        let paid = pre.claim_amount(caller, current_block_nonce, total_bond_amount, info);
                        &&& pre.claimed(post, caller, current_block_nonce, total_bond_amount, info)
                        &&& r == Ok::<Option<StakeRewardsCall>, ContractError>(if paid > 0 {
                            Some(StakeRewardsCall {
                                original_caller: caller,
                                token_identifier,
                                amount: paid as u128,
                                payment: Payment {
                                    token_identifier: pre.rewards_token_identifier,
                                    token_nonce: 0,
                                    amount: paid as u128,
                                },
                            })
                        } else {
                            None
                        })
                    },
                })
    }

    fn stake_rewards(&mut self, caller: u64, token_identifier: u64, current_block_nonce: u64, total_bond_amount: u128, info: BondsInfo) -> (r: Result<Option<StakeRewardsCall>, ContractError>)
    {
        let paid = self.take_stacked_rewards(caller, current_block_nonce, total_bond_amount, info)?;
        if paid > 0 {
            Ok(Some(StakeRewardsCall {
                original_caller: caller,
                token_identifier,
                amount: paid,
                payment: Payment { token_identifier: self.rewards_token_identifier, token_nonce: 0, amount: paid },
            }))
        } else {
            Ok(None)
        }
    }
}

} // verus!
