use vstd::prelude::*;
use std::collections::HashMap;
use crate::types::{State, ContractError, MAX_PERCENT, BLOCKS_IN_YEAR, DIVISION_SAFETY_CONST};
use crate::arith::{add_amount, sub_amount, mul_amount, mul_div};

verus! {

broadcast use vstd::std_specs::hash::group_hash_axioms;

/// The rewards values that the stake contract reads and writes in every transaction.
#[derive(Clone, Copy, Debug, PartialEq, Eq, Structural)]
pub struct StorageCache {
    pub rewards_reserve: u128,
    pub accumulated_rewards: u128,
    pub rewards_per_share: u128,
    pub rewards_per_block: u128,
    pub last_reward_block_nonce: u64,
}

/// Rewards configuration and per-address bookkeeping of the stake contract.
pub struct RewardsStorage {
    pub rewards_state: State,
    pub max_apr: u128,
    pub cache: StorageCache,
    pub address_last_reward_per_share: HashMap<u64, u128>,
    pub address_stack_rewards: HashMap<u64, u128>,
}

/// The value stored under `k`, zero where nothing is stored.
pub open spec fn stored(m: Map<u64, u128>, k: u64) -> nat {
    if m.contains_key(k) {
        m[k] as nat
    } else {
        0
    }
}

/// Rewards produced per block since the last allocation, zero when no block passed.
pub open spec fn rewards_since(per_block: u128, last: u64, current: u64) -> int {
    if current > last {
        per_block * (current - last)
    } else {
        0
    }
}

/// Per-block rewards that an annual rate of `max_apr` (in hundredths of a percent)
/// yields on `amount`.
pub open spec fn apr_bounded(amount: u128, max_apr: u128) -> int {
    amount * max_apr / (MAX_PERCENT as int) / (BLOCKS_IN_YEAR as int)
}

impl RewardsStorage {
    /// Rewards production is switched on.
    pub open spec fn can_produce(&self) -> bool {
        self.rewards_state == State::Active
    }

    /// Outcome of `get_amount_apr_bounded`: the bound, unless it exceeds 128 bits.
    pub open spec fn apr_bounded_spec(&self, amount: u128) -> Result<u128, ContractError> {
        if apr_bounded(amount, self.max_apr) > u128::MAX {
            Err(ContractError::Overflow)
        } else {
            Ok(apr_bounded(amount, self.max_apr) as u128)
        }
    }

    /// New rewards for the blocks since the last allocation, capped by the annual rate
    /// where one is set.
    pub open spec fn extra_rewards(&self, c: StorageCache, current: u64, total_staked: u128) -> int {
        let unbounded = rewards_since(c.rewards_per_block, c.last_reward_block_nonce, current);
        if self.max_apr > 0 {
            let bounded = apr_bounded(total_staked, self.max_apr) * (current
                - c.last_reward_block_nonce);
            if unbounded <= bounded {
                unbounded
            } else {
                bounded
            }
        } else {
            unbounded
        }
    }

    /// The first error that allocating the new rewards meets, if any.
    pub open spec fn generate_error(&self, c: StorageCache, current: u64, total_staked: u128) -> Option<ContractError> {
        let extra = self.extra_rewards(c, current, total_staked);
        if !self.can_produce() {
            None
        } else if self.max_apr > 0 && current < c.last_reward_block_nonce {
            Some(ContractError::NegativeResult)
        } else if !(0 < extra <= c.rewards_reserve) {
            None
        } else if total_staked == 0 {
            Some(ContractError::DivisionByZero)
        } else if c.rewards_per_share + extra * DIVISION_SAFETY_CONST / (total_staked as int)
            > u128::MAX {
            Some(ContractError::Overflow)
        } else if c.accumulated_rewards + extra > u128::MAX {
            Some(ContractError::Overflow)
        } else {
            None
        }
    }

    /// The cache after the rewards since the last allocation are allocated: the block
    /// nonce advances, and where the new rewards are positive and covered by the reserve
    /// they move from the reserve to the accumulated rewards while the rewards per share
    /// grow by their share of one staked unit, scaled by `DIVISION_SAFETY_CONST`.
    pub open spec fn generated(&self, c: StorageCache, current: u64, total_staked: u128) -> StorageCache {
        let extra = self.extra_rewards(c, current, total_staked);
        if !self.can_produce() {
            c
        } else {
            let advanced = StorageCache {
                last_reward_block_nonce: if current > c.last_reward_block_nonce {
                    current
                } else {
                    c.last_reward_block_nonce
                },
                ..c
            };
            if 0 < extra <= c.rewards_reserve {
                StorageCache {
                    rewards_per_share: (c.rewards_per_share + extra * DIVISION_SAFETY_CONST
                        / (total_staked as int)) as u128,
                    accumulated_rewards: (c.accumulated_rewards + extra) as u128,
                    rewards_reserve: (c.rewards_reserve - extra) as u128,
                    ..advanced
                }
            } else {
                advanced
            }
        }
    }




    /// A staker's share is computed only while something is staked and rewards have
    /// accumulated.
    pub open spec fn share_applies(c: StorageCache, total_staked: u128) -> bool {
        total_staked > 0 && c.accumulated_rewards > 0
    }

    /// Rewards earned by `user_stake` units since the staker's last recorded rewards per
    /// share.
    pub open spec fn user_rewards(&self, c: StorageCache, caller: u64, user_stake: u128) -> int {
        user_stake * (c.rewards_per_share - stored(self.address_last_reward_per_share@, caller))
            / (DIVISION_SAFETY_CONST as int)
    }

    /// The first error that computing a staker's share meets, if any.
    pub open spec fn share_error(&self, c: StorageCache, caller: u64, total_staked: u128, user_stake: u128) -> Option<ContractError> {
        let last = stored(self.address_last_reward_per_share@, caller);
        if !Self::share_applies(c, total_staked) {
            None
        } else if c.rewards_per_share < last {
            Some(ContractError::NegativeResult)
        } else if user_stake * (c.rewards_per_share - last) / (DIVISION_SAFETY_CONST as int) > u128::MAX {
            Some(ContractError::Overflow)
        } else if stored(self.address_stack_rewards@, caller) + self.user_rewards(c, caller, user_stake) > u128::MAX {
            Some(ContractError::Overflow)
        } else {
            None
        }
    }

    /// Everything but the per-address bookkeeping is the same in `self` and `other`.
    pub open spec fn same_settings(&self, other: &Self) -> bool {
        self.rewards_state == other.rewards_state && self.max_apr == other.max_apr && self.cache
            == other.cache
    }

    /// The last rewards per share of each address after a share is computed for `caller`:
    /// it catches up with the current rewards per share.
    pub open spec fn last_after_share(&self, c: StorageCache, caller: u64, total_staked: u128) -> Map<u64, u128> {
        if Self::share_applies(c, total_staked) {
            self.address_last_reward_per_share@.insert(caller, c.rewards_per_share)
        } else {
            self.address_last_reward_per_share@
        }
    }

    /// The stacked rewards of each address after a share is computed for `caller`: the
    /// earned rewards are added to what `caller` had stacked.
    pub open spec fn stack_after_share(&self, c: StorageCache, caller: u64, total_staked: u128, user_stake: u128) -> Map<u64, u128> {
        if Self::share_applies(c, total_staked) {
            self.address_stack_rewards@.insert(
                caller,
                (stored(self.address_stack_rewards@, caller) + self.user_rewards(c, caller, user_stake)) as u128,
            )
        } else {
            self.address_stack_rewards@
        }
    }

    /// `new` is `self` after a share is computed for `caller`.
    pub open spec fn share_recorded(&self, new: &Self, c: StorageCache, caller: u64, total_staked: u128, user_stake: u128) -> bool {
        &&& self.same_settings(new)
        &&& new.address_last_reward_per_share@ == self.last_after_share(c, caller, total_staked)
        &&& new.address_stack_rewards@ == self.stack_after_share(c, caller, total_staked, user_stake)
    }



    /// The rewards that `caller` earns against the cache, and what it then has stacked;
    /// nothing is changed.
    pub fn compute_share(&self, caller: u64, total_staked_amount: u128, user_stake_amount: u128, storage_cache: &StorageCache) -> (r: Result<(u128, u128), ContractError>)
        ensures
            match self.share_error(*storage_cache, caller, total_staked_amount, user_stake_amount) {
                Some(e) => r == Err::<(u128, u128), ContractError>(e),
                None => r == Ok::<(u128, u128), ContractError>((
                    if Self::share_applies(*storage_cache, total_staked_amount) {
                        self.user_rewards(*storage_cache, caller, user_stake_amount) as u128
                    } else {
                        0
                    },
                    stored(self.stack_after_share(*storage_cache, caller, total_staked_amount, user_stake_amount), caller) as u128,
                )),
            },
    {
        let stacked = match self.address_stack_rewards.get(&caller) {
            Some(v) => *v,
            None => 0,
        };
        if total_staked_amount > 0 && storage_cache.accumulated_rewards > 0 {
            let user_last_rewards_per_share = match self.address_last_reward_per_share.get(&caller) {
                Some(v) => *v,
                None => 0,
            };
            let diff = sub_amount(storage_cache.rewards_per_share, user_last_rewards_per_share)?;
            let user_rewards = mul_div(user_stake_amount, diff, DIVISION_SAFETY_CONST as u128)?;
            let new_stacked = add_amount(stacked, user_rewards)?;
            Ok((user_rewards, new_stacked))
        } else {
            Ok((0, stacked))
        }
    }

    /// Allocating rewards moves them from the reserve to the accumulated rewards: their
    /// sum stays the same; the rewards per share and the last allocation's block nonce
    /// never decrease.
    pub proof fn law_generation_conserves_rewards(&self, c: StorageCache, current: u64, total_staked: u128)
        requires
            self.generate_error(c, current, total_staked) is None,
        ensures
            ({
                let g = self.generated(c, current, total_staked);
                &&& g.rewards_reserve + g.accumulated_rewards == c.rewards_reserve + c.accumulated_rewards
                &&& g.rewards_per_share >= c.rewards_per_share
                &&& g.last_reward_block_nonce >= c.last_reward_block_nonce
                &&& g.rewards_per_block == c.rewards_per_block
            }),
    {
        let extra = self.extra_rewards(c, current, total_staked);
        if self.can_produce() && 0 < extra <= c.rewards_reserve {
            assert(extra * DIVISION_SAFETY_CONST / (total_staked as int) >= 0) by (nonlinear_arith)
                requires extra > 0, total_staked > 0;
        }
    }

    /// A second allocation in the same block allocates nothing more.
    pub proof fn law_generation_idempotent(&self, c: StorageCache, current: u64, total_staked: u128)
        requires
            self.generate_error(c, current, total_staked) is None,
        ensures
            self.generated(self.generated(c, current, total_staked), current, total_staked)
                == self.generated(c, current, total_staked),
            self.generate_error(self.generated(c, current, total_staked), current, total_staked) is None,
    {
        let g = self.generated(c, current, total_staked);
        if self.can_produce() {
            assert(g.last_reward_block_nonce >= current);
            assert(rewards_since(g.rewards_per_block, g.last_reward_block_nonce, current) == 0);
            if self.max_apr > 0 {
                let a = apr_bounded(total_staked, self.max_apr);
                assert(a >= 0) by (nonlinear_arith)
                    requires a == total_staked * self.max_apr / 10_000 / 5_256_000, total_staked >= 0, self.max_apr >= 0;
                assert(current >= c.last_reward_block_nonce);
                assert(g.last_reward_block_nonce == current);
                assert(a * (current - g.last_reward_block_nonce) == 0);
            }
            assert(self.extra_rewards(g, current, total_staked) <= 0);
        }
    }

    /// Rewards are not counted twice: once a staker's share is computed, computing it
    /// again against the same rewards per share earns nothing.
    pub proof fn law_share_not_counted_twice(&self, new: &Self, c: StorageCache, caller: u64, total_staked: u128, user_stake: u128)
        requires
            self.share_error(c, caller, total_staked, user_stake) is None,
            self.share_recorded(new, c, caller, total_staked, user_stake),
            Self::share_applies(c, total_staked),
        ensures
            new.user_rewards(c, caller, user_stake) == 0,
    {
        assert(stored(new.address_last_reward_per_share@, caller) == c.rewards_per_share);
    }

    /// What an allocation that moves rewards into the accumulated rewards does to the
    /// cache, in terms of the amount moved.
    proof fn lemma_allocation(&self, c: StorageCache, current: u64, total_staked: u128)
        requires
            self.generate_error(c, current, total_staked) is None,
            self.generated(c, current, total_staked).accumulated_rewards > c.accumulated_rewards,
        ensures
            ({
                let g = self.generated(c, current, total_staked);
                let extra = g.accumulated_rewards - c.accumulated_rewards;
                let d = g.rewards_per_share - c.rewards_per_share;
                &&& total_staked > 0
                &&& g.rewards_reserve == c.rewards_reserve - extra
                &&& d == extra * DIVISION_SAFETY_CONST / (total_staked as int)
                &&& d * total_staked <= extra * DIVISION_SAFETY_CONST < (d + 1) * total_staked
            }),
    {
        let extra = self.extra_rewards(c, current, total_staked);
        assert(self.can_produce() && 0 < extra <= c.rewards_reserve);
        let x = extra * DIVISION_SAFETY_CONST;
        let ts = total_staked as int;
        assert(x / ts >= 0 && (x / ts) * ts <= x < (x / ts + 1) * ts) by (nonlinear_arith)
            requires x >= 0, ts > 0;
    }

    /// An allocation that moves `extra > 0` rewards from the reserve to the accumulated
    /// rewards raises the rewards per share by `extra` per staked unit, scaled by
    /// `DIVISION_SAFETY_CONST` and rounded down: the increase `d` is the largest with
    /// `d * total_staked <= extra * DIVISION_SAFETY_CONST`, so what the stakers earn
    /// against it adds up to the allocated rewards less rounding.
    pub proof fn law_allocation_raises_share(
        &self,
        pre: StorageCache,
        post: StorageCache,
        current: u64,
        total_staked: u128,
        r: Result<(), ContractError>,
    )
        requires
            <RewardsStorage as RewardsModule>::generate_aggregated_rewards_outcome(self, &pre, &post, current, total_staked, r),
            post.accumulated_rewards > pre.accumulated_rewards,
        ensures
            ({
                let extra = post.accumulated_rewards - pre.accumulated_rewards;
                let d = post.rewards_per_share - pre.rewards_per_share;
                &&& r is Ok
                &&& total_staked > 0
                &&& post.rewards_reserve == pre.rewards_reserve - extra
                &&& d == extra * DIVISION_SAFETY_CONST / (total_staked as int)
                &&& d * total_staked <= extra * DIVISION_SAFETY_CONST < (d + 1) * total_staked
            }),
    {
        self.lemma_allocation(pre, current, total_staked);
    }

    /// While production is on, a successful allocation moves the rewards per block for
    /// each block since the last allocation, capped, where an annual rate is set, by the
    /// per-block rate bound on the total staked for those blocks; it moves them from the
    /// reserve to the accumulated rewards only when they are positive and the reserve
    /// covers them, and it advances the last allocation to `current` when that is later.
    /// While production is off the cache is left as it is.
    pub proof fn law_allocation_amount(
        &self,
        pre: StorageCache,
        post: StorageCache,
        current: u64,
        total_staked: u128,
        r: Result<(), ContractError>,
    )
        requires
            <RewardsStorage as RewardsModule>::generate_aggregated_rewards_outcome(self, &pre, &post, current, total_staked, r),
            r is Ok,
        ensures
            ({
                let blocks: int = if current > pre.last_reward_block_nonce {
                    current - pre.last_reward_block_nonce
                } else {
                    0
                };
                let produced = pre.rewards_per_block * blocks;
                let cap = total_staked * self.max_apr / 10_000 / 5_256_000 * blocks;
                let due = if self.max_apr > 0 && cap < produced { cap } else { produced };
                let moved = if 0 < due <= pre.rewards_reserve { due } else { 0 };
                if self.rewards_state == State::Active {
                    &&& post.accumulated_rewards == pre.accumulated_rewards + moved
                    &&& post.rewards_reserve == pre.rewards_reserve - moved
                    &&& post.rewards_per_block == pre.rewards_per_block
                    &&& post.last_reward_block_nonce == pre.last_reward_block_nonce + blocks
                } else {
                    post == pre
                }
            }),
    {
        if self.rewards_state == State::Active && self.max_apr > 0 {
            assert(current >= pre.last_reward_block_nonce);
        }
    }

    /// The endpoint's allocation follows the same law on the stored cache.
    pub proof fn law_endpoint_allocation_raises_share(
        pre: &Self,
        post: &Self,
        current: u64,
        total_staked: u128,
        r: Result<(), ContractError>,
    )
        requires
            <RewardsStorage as RewardsModule>::generate_rewards_outcome(pre, post, current, total_staked, r),
            post.cache.accumulated_rewards > pre.cache.accumulated_rewards,
        ensures
            ({
                let extra = post.cache.accumulated_rewards - pre.cache.accumulated_rewards;
                let d = post.cache.rewards_per_share - pre.cache.rewards_per_share;
                &&& r is Ok
                &&& total_staked > 0
                &&& post.cache.rewards_reserve == pre.cache.rewards_reserve - extra
                &&& d == extra * DIVISION_SAFETY_CONST / (total_staked as int)
                &&& d * total_staked <= extra * DIVISION_SAFETY_CONST < (d + 1) * total_staked
            }),
    {
        pre.lemma_allocation(pre.cache, current, total_staked);
    }

    /// A staker's share is its stake times the growth of the rewards per share since its
    /// last recorded value, divided by `DIVISION_SAFETY_CONST` after the product and
    /// rounded down: the share `v` is the largest with
    /// `v * DIVISION_SAFETY_CONST <= user_stake * growth`. It is added to the staker's
    /// stacked rewards, and the staker's recorded rewards per share catches up.
    pub proof fn law_share_is_stake_times_growth(
        pre: &Self,
        post: &Self,
        caller: u64,
        total_staked: u128,
        user_stake: u128,
        c: StorageCache,
        r: Result<u128, ContractError>,
    )
        requires
            <RewardsStorage as RewardsModule>::calculate_caller_share_in_rewards_outcome(pre, post, caller, total_staked, user_stake, &c, r),
            r is Ok,
            total_staked > 0,
            c.accumulated_rewards > 0,
        ensures
            ({
                let last = stored(pre.address_last_reward_per_share@, caller);
                let growth = c.rewards_per_share - last;
                r matches Ok(v) && {
                    &&& growth >= 0
                    &&& v == user_stake * growth / (DIVISION_SAFETY_CONST as int)
                    &&& v * DIVISION_SAFETY_CONST <= user_stake * growth < (v + 1) * DIVISION_SAFETY_CONST
                    &&& stored(post.address_stack_rewards@, caller) == stored(pre.address_stack_rewards@, caller) + v
                    &&& stored(post.address_last_reward_per_share@, caller) == c.rewards_per_share
                }
            }),
    {
        let last = stored(pre.address_last_reward_per_share@, caller);
        let x = user_stake * (c.rewards_per_share - last);
        let k = DIVISION_SAFETY_CONST as int;
        assert(c.rewards_per_share >= last);
        assert(x >= 0) by (nonlinear_arith)
            requires x == user_stake * (c.rewards_per_share - last), c.rewards_per_share >= last, user_stake >= 0;
        assert((x / k) * k <= x < (x / k + 1) * k) by (nonlinear_arith)
            requires x >= 0, k > 0;
    }

    /// While nothing is staked or no rewards have accumulated, a staker earns nothing and
    /// no bookkeeping changes.
    pub proof fn law_no_share_without_stake_or_rewards(
        pre: &Self,
        post: &Self,
        caller: u64,
        total_staked: u128,
        user_stake: u128,
        c: StorageCache,
        r: Result<u128, ContractError>,
    )
        requires
            <RewardsStorage as RewardsModule>::calculate_caller_share_in_rewards_outcome(pre, post, caller, total_staked, user_stake, &c, r),
            total_staked == 0 || c.accumulated_rewards == 0,
        ensures
            r == Ok::<u128, ContractError>(0),
            post.address_stack_rewards@ == pre.address_stack_rewards@,
            post.address_last_reward_per_share@ == pre.address_last_reward_per_share@,
            post.cache == pre.cache,
    {
    }

    /// A cache whose allocation has already caught up with `current` gains nothing from
    /// another allocation in that block.
    pub proof fn lemma_settled(&self, c: StorageCache, current: u64, total_staked: u128)
        requires
            self.can_produce() ==> c.last_reward_block_nonce >= current,
            self.can_produce() && self.max_apr > 0 ==> c.last_reward_block_nonce == current,
        ensures
            self.generated(c, current, total_staked) == c,
    {
        if self.can_produce() && self.max_apr > 0 {
            assert(apr_bounded(total_staked, self.max_apr) * (current - c.last_reward_block_nonce) == 0);
        }
    }
}

/// The rewards operations of the stake contract.
pub trait RewardsModule: Sized {
    /// What `calculate_rewards_since_last_allocation` guarantees, given the cache before and after and its arguments.
    spec fn calculate_rewards_since_last_allocation_outcome(this: &Self, pre_storage_cache: &StorageCache, post_storage_cache: &StorageCache, current_block_nonce: u64, r: Result<u128, ContractError>) -> bool;

    /// Rewards per block since the last allocation; moves the last allocation to
    /// `current_block_nonce` when that is later.
    fn calculate_rewards_since_last_allocation(
        &self,
        storage_cache: &mut StorageCache,
        current_block_nonce: u64,
    ) -> (r: Result<u128, ContractError>)
        ensures
            Self::calculate_rewards_since_last_allocation_outcome(self, old(storage_cache), final(storage_cache), current_block_nonce, r),
    ;

    /// What `get_amount_apr_bounded` guarantees, given the state and its arguments.
    spec fn get_amount_apr_bounded_outcome(this: &Self, amount: u128, r: Result<u128, ContractError>) -> bool;

    /// Per-block rewards that the annual rate cap allows on `amount`.
    fn get_amount_apr_bounded(&self, amount: u128) -> (r: Result<u128, ContractError>)
        ensures
            Self::get_amount_apr_bounded_outcome(self, amount, r),
    ;

    /// What `generate_aggregated_rewards` guarantees, given the cache before and after and its arguments.
    spec fn generate_aggregated_rewards_outcome(this: &Self, pre_storage_cache: &StorageCache, post_storage_cache: &StorageCache, current_block_nonce: u64, total_staked_amount: u128, r: Result<(), ContractError>) -> bool;

    /// Allocates the rewards produced since the last allocation (see `generated`); does
    /// nothing while rewards production is off. `total_staked_amount` is the total bond
    /// amount that the bond contract reports.
    fn generate_aggregated_rewards(
        &self,
        storage_cache: &mut StorageCache,
        current_block_nonce: u64,
        total_staked_amount: u128,
    ) -> (r: Result<(), ContractError>)
        ensures
            Self::generate_aggregated_rewards_outcome(self, old(storage_cache), final(storage_cache), current_block_nonce, total_staked_amount, r),
    ;

    /// What `calculate_caller_share_in_rewards` guarantees, given the state before and after, its arguments and its result.
    spec fn calculate_caller_share_in_rewards_outcome(pre: &Self, post: &Self, caller: u64, total_staked_amount: u128, user_stake_amount: u128, storage_cache: &StorageCache, r: Result<u128, ContractError>) -> bool;

    /// Stacks the rewards that `caller`'s stake of `user_stake_amount` (out of
    /// `total_staked_amount`) earned since its last recorded rewards per share, and
    /// returns them.
    fn calculate_caller_share_in_rewards(
        &mut self,
        caller: u64,
        total_staked_amount: u128,
        user_stake_amount: u128,
        storage_cache: &StorageCache,
    ) -> (r: Result<u128, ContractError>)
        ensures
            Self::calculate_caller_share_in_rewards_outcome(old(self), final(self), caller, total_staked_amount, user_stake_amount, storage_cache, r),
    ;

    /// What `generate_rewards` guarantees, given the state before and after, its arguments and its result.
    spec fn generate_rewards_outcome(pre: &Self, post: &Self, current_block_nonce: u64, total_staked_amount: u128, r: Result<(), ContractError>) -> bool;

    /// Endpoint `generateAggregatedRewards`: allocates the rewards produced since the
    /// last allocation. It is open to anyone and works in any contract state.
    fn generate_rewards(&mut self, current_block_nonce: u64, total_staked_amount: u128) -> (r: Result<(), ContractError>)
        ensures
            Self::generate_rewards_outcome(old(self), final(self), current_block_nonce, total_staked_amount, r),
    ;
}

impl RewardsModule for RewardsStorage {
    open spec fn calculate_rewards_since_last_allocation_outcome(this: &Self, pre_storage_cache: &StorageCache, post_storage_cache: &StorageCache, current_block_nonce: u64, r: Result<u128, ContractError>) -> bool {
        &&& (({
                    let c = *pre_storage_cache;
                    let since = rewards_since(c.rewards_per_block, c.last_reward_block_nonce, current_block_nonce);
                    if current_block_nonce <= c.last_reward_block_nonce {
                        r == Ok::<u128, ContractError>(0) && *post_storage_cache == c
                    } else if since > u128::MAX {
                        r == Err::<u128, ContractError>(ContractError::Overflow) && *post_storage_cache == c
                    } else {
                        r == Ok::<u128, ContractError>(since as u128)
                            && *post_storage_cache == (StorageCache { last_reward_block_nonce: current_block_nonce, ..c })
                    }
                }))
    }

    fn calculate_rewards_since_last_allocation(
        &self,
        storage_cache: &mut StorageCache,
        current_block_nonce: u64,
    ) -> (r: Result<u128, ContractError>)
    {
        if current_block_nonce <= storage_cache.last_reward_block_nonce {
            return Ok(0);
        }
        let block_nonce_diff = current_block_nonce - storage_cache.last_reward_block_nonce;
        let rewards = mul_amount(storage_cache.rewards_per_block, block_nonce_diff as u128)?;
        storage_cache.last_reward_block_nonce = current_block_nonce;
        Ok(rewards)
    }

    open spec fn get_amount_apr_bounded_outcome(this: &Self, amount: u128, r: Result<u128, ContractError>) -> bool {
        &&& (r == this.apr_bounded_spec(amount))
    }

    fn get_amount_apr_bounded(&self, amount: u128) -> (r: Result<u128, ContractError>)
    {
        proof {
            vstd::arithmetic::div_mod::lemma_div_denominator(amount * self.max_apr, MAX_PERCENT as int, BLOCKS_IN_YEAR as int);
        }
        mul_div(amount, self.max_apr, (MAX_PERCENT as u128) * (BLOCKS_IN_YEAR as u128))
    }

    open spec fn generate_aggregated_rewards_outcome(this: &Self, pre_storage_cache: &StorageCache, post_storage_cache: &StorageCache, current_block_nonce: u64, total_staked_amount: u128, r: Result<(), ContractError>) -> bool {
        &&& (match this.generate_error(*pre_storage_cache, current_block_nonce, total_staked_amount) {
                    Some(e) => r == Err::<(), ContractError>(e) && *post_storage_cache == *pre_storage_cache,
                    None => r is Ok && *post_storage_cache == this.generated(
                        *pre_storage_cache,
                        current_block_nonce,
                        total_staked_amount,
                    ),
                })
    }

    fn generate_aggregated_rewards(
        &self,
        storage_cache: &mut StorageCache,
        current_block_nonce: u64,
        total_staked_amount: u128,
    ) -> (r: Result<(), ContractError>)
    {
        if self.rewards_state != State::Active {
            return Ok(());
        }
        let start = *storage_cache;
        let last_reward_nonce = storage_cache.last_reward_block_nonce;
        let mut cache = *storage_cache;
        // `None` stands for an amount past 128 bits, and so past any reserve.
        let extra_rewards_unbounded: Option<u128> = match self.calculate_rewards_since_last_allocation(
            &mut cache,
            current_block_nonce,
        ) {
            Ok(v) => Some(v),
            Err(_) => {
                cache.last_reward_block_nonce = current_block_nonce;
                None
            },
        };
        let extra_rewards: Option<u128>;
        if self.max_apr > 0 {
            let per_block: Option<u128> = match self.get_amount_apr_bounded(total_staked_amount) {
                Ok(v) => Some(v),
                Err(_) => None,
            };
            if current_block_nonce < last_reward_nonce {
                return Err(ContractError::NegativeResult);
            }
            let block_nonce_diff = current_block_nonce - last_reward_nonce;
            let ghost a = apr_bounded(total_staked_amount, self.max_apr);
            proof {
                assert(a >= 0) by (nonlinear_arith)
                    requires a == total_staked_amount * self.max_apr / 10_000 / 5_256_000, total_staked_amount >= 0, self.max_apr >= 0;
            }
            let bounded: Option<u128> = if block_nonce_diff == 0 {
                Some(0)
            } else {
                match per_block {
                    Some(pb) => match mul_amount(pb, block_nonce_diff as u128) {
                        Ok(b) => Some(b),
                        Err(_) => None,
                    },
                    None => {
                        assert(a * block_nonce_diff > u128::MAX) by (nonlinear_arith)
                            requires a > u128::MAX, block_nonce_diff >= 1;
                        None
                    },
                }
            };
            extra_rewards = match (extra_rewards_unbounded, bounded) {
                (Some(u), Some(b)) => Some(if u <= b { u } else { b }),
                (Some(u), None) => Some(u),
                (None, Some(b)) => Some(b),
                (None, None) => None,
            };
        } else {
            extra_rewards = extra_rewards_unbounded;
        }
        assert(match extra_rewards {
            Some(e) => e == self.extra_rewards(start, current_block_nonce, total_staked_amount),
            None => self.extra_rewards(start, current_block_nonce, total_staked_amount) > u128::MAX,
        });
        match extra_rewards {
            Some(extra) => {
                if extra > 0 && extra <= cache.rewards_reserve {
                    let increment = mul_div(extra, DIVISION_SAFETY_CONST as u128, total_staked_amount)?;
                    let per_share = add_amount(cache.rewards_per_share, increment)?;
                    let accumulated = add_amount(cache.accumulated_rewards, extra)?;
                    cache.rewards_per_share = per_share;
                    cache.accumulated_rewards = accumulated;
                    cache.rewards_reserve = cache.rewards_reserve - extra;
                }
            },
            None => {},
        }
        *storage_cache = cache;
        Ok(())
    }

    open spec fn calculate_caller_share_in_rewards_outcome(pre: &Self, post: &Self, caller: u64, total_staked_amount: u128, user_stake_amount: u128, storage_cache: &StorageCache, r: Result<u128, ContractError>) -> bool {
        &&& (match pre.share_error(*storage_cache, caller, total_staked_amount, user_stake_amount) {
                    Some(e) => r == Err::<u128, ContractError>(e) && *post == *pre,
                    None => {
                        &&& pre.share_recorded(post, *storage_cache, caller, total_staked_amount, user_stake_amount)
                        &&& r == Ok::<u128, ContractError>(
                            if Self::share_applies(*storage_cache, total_staked_amount) {
                                pre.user_rewards(*storage_cache, caller, user_stake_amount) as u128
                            } else {
                                0
                            },
                        )
                    },
                })
    }

    fn calculate_caller_share_in_rewards(
        &mut self,
        caller: u64,
        total_staked_amount: u128,
        user_stake_amount: u128,
        storage_cache: &StorageCache,
    ) -> (r: Result<u128, ContractError>)
    {
        let (user_rewards, stacked) = self.compute_share(caller, total_staked_amount, user_stake_amount, storage_cache)?;
        if total_staked_amount > 0 && storage_cache.accumulated_rewards > 0 {
            self.address_last_reward_per_share.insert(caller, storage_cache.rewards_per_share);
            self.address_stack_rewards.insert(caller, stacked);
        }
        Ok(user_rewards)
    }

    open spec fn generate_rewards_outcome(pre: &Self, post: &Self, current_block_nonce: u64, total_staked_amount: u128, r: Result<(), ContractError>) -> bool {
        &&& (match pre.generate_error(pre.cache, current_block_nonce, total_staked_amount) {
                    Some(e) => r == Err::<(), ContractError>(e) && *post == *pre,
                    None => r is Ok && *post == (RewardsStorage {
                        cache: pre.generated(pre.cache, current_block_nonce, total_staked_amount),
                        ..*pre
                    }),
                })
    }

    fn generate_rewards(&mut self, current_block_nonce: u64, total_staked_amount: u128) -> (r: Result<(), ContractError>)
    {
        let mut storage_cache = self.cache;
        self.generate_aggregated_rewards(&mut storage_cache, current_block_nonce, total_staked_amount)?;
        self.cache = storage_cache;
        Ok(())
    }
}

} // verus!
