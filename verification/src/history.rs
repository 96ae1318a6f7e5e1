use vstd::prelude::*;
use crate::types::{ContractError, Payment};
use crate::tables::{pair_key, lemma_pair_key_injective};
use crate::bonding::{Effects, LifeBonding, LifeBondingContract};

verus! {

broadcast use lemma_pair_key_injective;

/// One endpoint call on the life-bonding contract, with the arguments it is made with.
pub enum BondingCall {
    Upgrade,
    Bond {
        caller: u64,
        caller_is_smart_contract: bool,
        owner: u64,
        block_timestamp: u64,
        original_caller: u64,
        token_identifier: u64,
        nonce: u64,
        lock_period_seconds: u64,
        payment: Payment,
    },
    Withdraw { caller: u64, block_timestamp: u64, token_identifier: u64, nonce: u64 },
    Renew { caller: u64, block_timestamp: u64, token_identifier: u64, nonce: u64 },
    SetVaultNonce { caller: u64, token_identifier: u64, nonce: u64 },
    TopUpVault { caller: u64, block_timestamp: u64, token_identifier: u64, nonce: u64, payment: Payment },
    TopUpAddressVault {
        caller: u64,
        block_timestamp: u64,
        address: u64,
        token_identifier: u64,
        nonce: u64,
        payment: Payment,
    },
    StakeRewards { caller: u64, block_timestamp: u64, original_caller: u64, token_identifier: u64, amount: u128 },
    AddProof { caller: u64, block_timestamp: u64, payment: Payment },
    ClaimRefund { caller: u64, block_timestamp: u64, token_identifier: u64, nonce: u64 },
}

/// `post` is a state that `call` on `pre` can leave, whatever it returns.
pub open spec fn performs(pre: LifeBonding, post: LifeBonding, call: BondingCall) -> bool {
    match call {
        BondingCall::Upgrade => LifeBonding::upgrade_outcome(&pre, &post),
        BondingCall::Bond {
            caller,
            caller_is_smart_contract,
            owner,
            block_timestamp,
            original_caller,
            token_identifier,
            nonce,
            lock_period_seconds,
            payment,
        } => exists|r: Result<Effects, ContractError>|
            LifeBonding::bond_outcome(
                &pre,
                &post,
                caller,
                caller_is_smart_contract,
                owner,
                block_timestamp,
                original_caller,
                token_identifier,
                nonce,
                lock_period_seconds,
                payment,
                r,
            ),
        BondingCall::Withdraw { caller, block_timestamp, token_identifier, nonce } => exists|
            r: Result<Effects, ContractError>,
        | LifeBonding::withdraw_outcome(&pre, &post, caller, block_timestamp, token_identifier, nonce, r),
        BondingCall::Renew { caller, block_timestamp, token_identifier, nonce } => exists|
            r: Result<Effects, ContractError>,
        | LifeBonding::renew_outcome(&pre, &post, caller, block_timestamp, token_identifier, nonce, r),
        BondingCall::SetVaultNonce { caller, token_identifier, nonce } => exists|r: Result<(), ContractError>|
            LifeBonding::set_vault_nonce_outcome(&pre, &post, caller, token_identifier, nonce, r),
        BondingCall::TopUpVault { caller, block_timestamp, token_identifier, nonce, payment } => exists|
            r: Result<Effects, ContractError>,
        | LifeBonding::top_up_vault_outcome(&pre, &post, caller, block_timestamp, token_identifier, nonce, payment, r),
        BondingCall::TopUpAddressVault { caller, block_timestamp, address, token_identifier, nonce, payment } => exists|
            r: Result<Effects, ContractError>,
        | LifeBonding::top_up_address_vault_outcome(
            &pre,
            &post,
            caller,
            block_timestamp,
            address,
            token_identifier,
            nonce,
            payment,
            r,
        ),
        BondingCall::StakeRewards { caller, block_timestamp, original_caller, token_identifier, amount } => exists|
            r: Result<(), ContractError>,
        | LifeBonding::stake_rewards_outcome(&pre, &post, caller, block_timestamp, original_caller, token_identifier, amount, r),
        BondingCall::AddProof { caller, block_timestamp, payment } => exists|r: Result<(), ContractError>|
            LifeBonding::add_proof_outcome(&pre, &post, caller, block_timestamp, payment, r),
        BondingCall::ClaimRefund { caller, block_timestamp, token_identifier, nonce } => exists|
            r: Result<Effects, ContractError>,
        | LifeBonding::claim_refund_outcome(&pre, &post, caller, block_timestamp, token_identifier, nonce, r),
    }
}

/// `call`, made on `pre`, is a deposit of proof by `address` for the compensation
/// `compensation_id`.
pub open spec fn deposits_proof(pre: LifeBonding, call: BondingCall, address: u64, compensation_id: u64) -> bool {
    call matches BondingCall::AddProof { caller, payment, .. } && caller == address
        && pre.compensations_ids.id_of(payment.token_identifier, payment.token_nonce) == compensation_id
}

/// A call that is no deposit of proof by `address` for the compensation of
/// `(token_identifier, nonce)` leaves `address` without a refund record there, and
/// leaves that compensation's id as it is.
proof fn lemma_no_refund_kept(
    pre: LifeBonding,
    post: LifeBonding,
    call: BondingCall,
    address: u64,
    token_identifier: u64,
    nonce: u64,
)
    requires
        performs(pre, post, call),
        pre.compensations_ids.id_of(token_identifier, nonce) != 0,
        pre.refund_of(address, pre.compensations_ids.id_of(token_identifier, nonce)) is None,
        !deposits_proof(pre, call, address, pre.compensations_ids.id_of(token_identifier, nonce)),
    ensures
        post.compensations_ids.id_of(token_identifier, nonce) == pre.compensations_ids.id_of(token_identifier, nonce),
        post.refund_of(address, pre.compensations_ids.id_of(token_identifier, nonce)) is None,
{
    let cid = pre.compensations_ids.id_of(token_identifier, nonce);
    let k = pair_key(address, cid);
    match call {
        BondingCall::Upgrade => {},
        BondingCall::Bond {
            caller,
            caller_is_smart_contract,
            owner,
            block_timestamp,
            original_caller,
            token_identifier: t,
            nonce: n,
            lock_period_seconds,
            payment,
        } => {
            let r = choose|r: Result<Effects, ContractError>|
                LifeBonding::bond_outcome(
                    &pre,
                    &post,
                    caller,
                    caller_is_smart_contract,
                    owner,
                    block_timestamp,
                    original_caller,
                    t,
                    n,
                    lock_period_seconds,
                    payment,
                    r,
                );
            if pre.bond_error(caller, caller_is_smart_contract, owner, block_timestamp, t, n, lock_period_seconds, payment) is None {
                assert(pre.compensations_ids.inserted(&post.compensations_ids, t, n));
                if pre.compensations_ids.id_of(t, n) == 0 {
                    assert(pair_key(t, n) != pair_key(token_identifier, nonce));
                }
                assert(post.address_refund == pre.address_refund);
            }
        },
        BondingCall::Withdraw { caller, block_timestamp, token_identifier: t, nonce: n } => {
            let r = choose|r: Result<Effects, ContractError>|
                LifeBonding::withdraw_outcome(&pre, &post, caller, block_timestamp, t, n, r);
        },
        BondingCall::Renew { caller, block_timestamp, token_identifier: t, nonce: n } => {
            let r = choose|r: Result<Effects, ContractError>|
                LifeBonding::renew_outcome(&pre, &post, caller, block_timestamp, t, n, r);
        },
        BondingCall::SetVaultNonce { caller, token_identifier: t, nonce: n } => {
            let r = choose|r: Result<(), ContractError>|
                LifeBonding::set_vault_nonce_outcome(&pre, &post, caller, t, n, r);
        },
        BondingCall::TopUpVault { caller, block_timestamp, token_identifier: t, nonce: n, payment } => {
            let r = choose|r: Result<Effects, ContractError>|
                LifeBonding::top_up_vault_outcome(&pre, &post, caller, block_timestamp, t, n, payment, r);
        },
        BondingCall::TopUpAddressVault { caller, block_timestamp, address: a, token_identifier: t, nonce: n, payment } => {
            let r = choose|r: Result<Effects, ContractError>|
                LifeBonding::top_up_address_vault_outcome(&pre, &post, caller, block_timestamp, a, t, n, payment, r);
        },
        BondingCall::StakeRewards { caller, block_timestamp, original_caller, token_identifier: t, amount } => {
            let r = choose|r: Result<(), ContractError>|
                LifeBonding::stake_rewards_outcome(&pre, &post, caller, block_timestamp, original_caller, t, amount, r);
        },
        BondingCall::AddProof { caller, block_timestamp, payment } => {
            let r = choose|r: Result<(), ContractError>|
                LifeBonding::add_proof_outcome(&pre, &post, caller, block_timestamp, payment, r);
            let cid2 = pre.compensations_ids.id_of(payment.token_identifier, payment.token_nonce);
            assert(pair_key(caller, cid2) != k);
        },
        BondingCall::ClaimRefund { caller, block_timestamp, token_identifier: t, nonce: n } => {
            let r = choose|r: Result<Effects, ContractError>|
                LifeBonding::claim_refund_outcome(&pre, &post, caller, block_timestamp, t, n, r);
        },
    }
}

/// Along a run of `calls` from `states[0]` in which `address` deposits no proof for the
/// compensation of `(token_identifier, nonce)`, `address` gets no refund record there
/// once it has none.
proof fn lemma_no_refund_along(
    states: Seq<LifeBonding>,
    calls: Seq<BondingCall>,
    address: u64,
    token_identifier: u64,
    nonce: u64,
    i: int,
)
    requires
        states.len() == calls.len() + 1,
        forall|j: int| 0 <= j < calls.len() ==> #[trigger] performs(states[j], states[j + 1], calls[j]),
        states[0].compensations_ids.id_of(token_identifier, nonce) != 0,
        states[0].refund_of(address, states[0].compensations_ids.id_of(token_identifier, nonce)) is None,
        forall|j: int|
            0 <= j < calls.len() ==> !#[trigger] deposits_proof(
                states[j],
                calls[j],
                address,
                states[0].compensations_ids.id_of(token_identifier, nonce),
            ),
        0 <= i < states.len(),
    ensures
        states[i].compensations_ids.id_of(token_identifier, nonce) == states[0].compensations_ids.id_of(token_identifier, nonce),
        states[i].refund_of(address, states[0].compensations_ids.id_of(token_identifier, nonce)) is None,
    decreases i,
{
    if i > 0 {
        lemma_no_refund_along(states, calls, address, token_identifier, nonce, i - 1);
        assert(performs(states[i - 1], states[i - 1 + 1], calls[i - 1]));
        assert(!deposits_proof(states[i - 1], calls[i - 1], address, states[0].compensations_ids.id_of(token_identifier, nonce)));
        lemma_no_refund_kept(states[i - 1], states[i], calls[i - 1], address, token_identifier, nonce);
    }
}

/// Each proof is refunded at most once: after `caller` has claimed its refund from the
/// compensation of `(token_identifier, nonce)`, a later claim of it fails and leaves
/// the state as it is, whatever calls came in between, unless `caller` deposited a new
/// proof for that compensation. `states[0]` is the state after the first claim, made on
/// `before`; `calls` lead from it to the last state, on which the second claim is made.
pub proof fn law_refund_claimed_once(
    before: LifeBonding,
    caller: u64,
    block_timestamp: u64,
    token_identifier: u64,
    nonce: u64,
    first: Result<Effects, ContractError>,
    states: Seq<LifeBonding>,
    calls: Seq<BondingCall>,
    later_timestamp: u64,
    post: LifeBonding,
    second: Result<Effects, ContractError>,
)
    requires
        LifeBonding::claim_refund_outcome(&before, &states[0], caller, block_timestamp, token_identifier, nonce, first),
        first is Ok,
        states.len() == calls.len() + 1,
        forall|j: int| 0 <= j < calls.len() ==> #[trigger] performs(states[j], states[j + 1], calls[j]),
        forall|j: int|
            0 <= j < calls.len() ==> !#[trigger] deposits_proof(
                states[j],
                calls[j],
                caller,
                before.compensations_ids.id_of(token_identifier, nonce),
            ),
        LifeBonding::claim_refund_outcome(&states.last(), &post, caller, later_timestamp, token_identifier, nonce, second),
    ensures
        states.last().refund_of(caller, before.compensations_ids.id_of(token_identifier, nonce)) is None,
        states.last().claim_refund_error(caller, later_timestamp, token_identifier, nonce) is Some,
        second is Err,
        post == states.last(),
{
    let cid = before.compensations_ids.id_of(token_identifier, nonce);
    assert(before.claim_refund_error(caller, block_timestamp, token_identifier, nonce) is None);
    assert(before.refund_claimed(&states[0], caller, cid));
    assert(states[0].compensations_ids == before.compensations_ids);
    assert(states[0].address_refund@ == before.address_refund@.remove(pair_key(caller, cid)));
    lemma_no_refund_along(states, calls, caller, token_identifier, nonce, states.len() - 1);
}

} // verus!
