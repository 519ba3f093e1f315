//! What holds of the registry's model: how the sum of the stakes follows a
//! change, that every operation keeps the invariant, and that a draw has at
//! most one winner, who is eligible.

use vstd::prelude::*;
use crate::blockchain::pos_spec::{
    applied, applied_all, distinct_addresses, eligible_stake, enrolled, penalty, stake_sum,
    RegistryOp, RegistryView, ValidatorView,
};

verus! {

/// A validator that joins at the end adds its stake to the sum.
pub proof fn lemma_stake_sum_push(vs: Seq<ValidatorView>, v: ValidatorView)
    ensures
        stake_sum(vs.push(v)) == stake_sum(vs) + v.stake,
{
    assert(vs.push(v).drop_last() =~= vs);
}

/// Replacing a record changes the sum by the difference of the stakes.
pub proof fn lemma_stake_sum_update(vs: Seq<ValidatorView>, i: int, v: ValidatorView)
    requires
        0 <= i < vs.len(),
    ensures
        stake_sum(vs.update(i, v)) == stake_sum(vs) - vs[i].stake + v.stake,
    decreases vs.len(),
{
    let us = vs.update(i, v);
    if i == vs.len() - 1 {
        assert(us.drop_last() =~= vs.drop_last());
    } else {
        lemma_stake_sum_update(vs.drop_last(), i, v);
        assert(us.drop_last() =~= vs.drop_last().update(i, v));
    }
}

/// Removing a record takes its stake from the sum, which held at least
/// that much.
pub proof fn lemma_stake_sum_remove(vs: Seq<ValidatorView>, i: int)
    requires
        0 <= i < vs.len(),
    ensures
        stake_sum(vs.remove(i)) == stake_sum(vs) - vs[i].stake,
        vs[i].stake <= stake_sum(vs),
    decreases vs.len(),
{
    let rs = vs.remove(i);
    if i == vs.len() - 1 {
        assert(rs =~= vs.drop_last());
    } else {
        lemma_stake_sum_remove(vs.drop_last(), i);
        assert(rs.drop_last() =~= vs.drop_last().remove(i));
        assert(rs.last() == vs.last());
    }
}

/// The stakes of the first `k + 1` validators are those of the first `k`
/// and that of the next, and no more than the stakes of all.
pub proof fn lemma_stake_sum_take(vs: Seq<ValidatorView>, k: int)
    requires
        0 <= k < vs.len(),
    ensures
        stake_sum(vs.take(k + 1)) == stake_sum(vs.take(k)) + vs[k].stake,
        stake_sum(vs.take(k + 1)) <= stake_sum(vs),
    decreases vs.len() - k,
{
    assert(vs.take(k + 1).drop_last() =~= vs.take(k));
    if k + 1 == vs.len() {
        assert(vs.take(k + 1) =~= vs);
    } else {
        lemma_stake_sum_take(vs, k + 1);
    }
}

/// The eligible stake is part of the whole stake.
pub proof fn lemma_eligible_stake_bounded(vs: Seq<ValidatorView>, current: nat, threshold: nat)
    ensures
        eligible_stake(vs, current, threshold) <= stake_sum(vs),
    decreases vs.len(),
{
    if vs.len() > 0 {
        lemma_eligible_stake_bounded(vs.drop_last(), current, threshold);
    }
}

/// Passing the validator at `i` adds its stake to the eligible stake
/// walked so far, if it is eligible, and nothing if it is not.
pub proof fn lemma_eligible_before_step(r: RegistryView, i: int, current: nat)
    requires
        0 <= i < r.validators.len(),
    ensures
        r.eligible_before(i + 1, current) == r.eligible_before(i, current) + if r.eligible_at(
            i,
            current,
        ) {
            r.validators[i].stake
        } else {
            0
        },
{
    let head = r.validators.take(i + 1);
    assert(head.drop_last() =~= r.validators.take(i));
    assert(head.last() == r.validators[i]);
}

/// The eligible stake walked so far never shrinks along the walk.
pub proof fn lemma_eligible_before_monotone(r: RegistryView, i: int, j: int, current: nat)
    requires
        0 <= i <= j <= r.validators.len(),
    ensures
        r.eligible_before(i, current) <= r.eligible_before(j, current),
    decreases j - i,
{
    if i < j {
        lemma_eligible_before_monotone(r, i, j - 1, current);
        lemma_eligible_before_step(r, j - 1, current);
    }
}

/// The whole walk collects no more than the registry's eligible stake,
/// which is no more than the sum of all stakes.
pub proof fn lemma_eligible_before_bounded(r: RegistryView, i: int, current: nat)
    requires
        0 <= i <= r.validators.len(),
    ensures
        r.eligible_before(i, current) <= eligible_stake(
            r.validators,
            current,
            r.finalty_threshold,
        ) <= stake_sum(r.validators),
{
    lemma_eligible_before_monotone(r, i, r.validators.len() as int, current);
    assert(r.validators.take(r.validators.len() as int) =~= r.validators);
    lemma_eligible_stake_bounded(r.validators, current, r.finalty_threshold);
}

/// A draw falls to at most one validator.
pub proof fn lemma_winner_unique(r: RegistryView, i: int, j: int, current: nat, draw: nat)
    requires
        r.wins(i, current, draw),
        r.wins(j, current, draw),
    ensures
        i == j,
{
    if i < j {
        lemma_eligible_before_step(r, i, current);
        lemma_eligible_before_monotone(r, i + 1, j, current);
    } else if j < i {
        lemma_eligible_before_step(r, j, current);
        lemma_eligible_before_monotone(r, j + 1, i, current);
    }
}

/// The validator to whom a draw falls is the proposer that the draw
/// selects.
pub proof fn lemma_winner_is_proposer(r: RegistryView, i: int, current: nat, draw: nat)
    requires
        r.wins(i, current, draw),
    ensures
        r.proposer(current, draw) == Some(r.validators[i].address),
{
    let k = choose|k: int| r.wins(k, current, draw);
    lemma_winner_unique(r, i, k, current, draw);
}

/// A draw below the eligible stake walked up to `k` falls to a validator
/// that stands before `k`.
proof fn lemma_winner_below(r: RegistryView, k: int, current: nat, draw: nat)
    requires
        0 <= k <= r.validators.len(),
        draw < r.eligible_before(k, current),
    ensures
        exists|i: int| 0 <= i < k && r.wins(i, current, draw),
    decreases k,
{
    if k == 0 {
        assert(r.validators.take(0) =~= Seq::<ValidatorView>::empty());
    } else {
        lemma_eligible_before_step(r, k - 1, current);
        if draw < r.eligible_before(k - 1, current) {
            lemma_winner_below(r, k - 1, current, draw);
            let i = choose|i: int| 0 <= i < k - 1 && r.wins(i, current, draw);
            assert(0 <= i < k && r.wins(i, current, draw));
        } else {
            assert(r.wins(k - 1, current, draw));
        }
    }
}

/// A draw selects a proposer exactly when it lies below the eligible
/// stake. Stake of validators that may not propose widens the range that
/// is drawn from, and a draw that lands there selects nobody.
pub proof fn lemma_proposer_iff_draw_below_eligible(r: RegistryView, current: nat, draw: nat)
    ensures
        r.proposer(current, draw).is_some() <==> draw < eligible_stake(
            r.validators,
            current,
            r.finalty_threshold,
        ),
{
    let n = r.validators.len() as int;
    assert(r.validators.take(n) =~= r.validators);
    if draw < eligible_stake(r.validators, current, r.finalty_threshold) {
        lemma_winner_below(r, n, current, draw);
    }
    if r.proposer(current, draw).is_some() {
        let i = choose|i: int| r.wins(i, current, draw);
        lemma_eligible_before_step(r, i, current);
        lemma_eligible_before_monotone(r, i + 1, n, current);
    }
}

/// Whoever a draw selects is registered, active, and last proposed at
/// least the finality threshold before the height asked for.
pub proof fn lemma_proposer_is_eligible(r: RegistryView, current: nat, draw: nat)
    requires
        r.wf(),
        r.proposer(current, draw).is_some(),
    ensures
        r.knows(r.proposer(current, draw).unwrap()),
        r.entry(r.proposer(current, draw).unwrap()).is_active,
        current - r.entry(r.proposer(current, draw).unwrap()).last_proposed_block
            >= r.finalty_threshold,
{
    let i = choose|i: int| r.wins(i, current, draw);
    let address = r.validators[i].address;
    assert(r.at(address, i));
    lemma_slot_unique(r, address, i);
}

/// Among distinct addresses, an address stands at one place only.
pub proof fn lemma_slot_unique(r: RegistryView, address: Seq<char>, i: int)
    requires
        distinct_addresses(r.validators),
        r.at(address, i),
    ensures
        r.knows(address),
        r.slot(address) == i,
        r.entry(address) == r.validators[i],
{
    let j = r.slot(address);
    assert(r.at(address, j));
    if i < j {
        assert(r.validators[i].address != r.validators[j].address);
    } else if j < i {
        assert(r.validators[j].address != r.validators[i].address);
    }
}

/// Replacing a record by one with the same address keeps the invariant.
pub proof fn lemma_replaced_wf(r: RegistryView, i: int, v: ValidatorView)
    requires
        r.wf(),
        0 <= i < r.validators.len(),
        v.address == r.validators[i].address,
    ensures
        r.replaced(i, v).wf(),
        r.replaced(i, v).total_stake == r.total_stake - r.validators[i].stake + v.stake,
{
    lemma_stake_sum_update(r.validators, i, v);
    lemma_stake_sum_remove(r.validators, i);
    let us = r.validators.update(i, v);
    assert forall|a: int, b: int| 0 <= a < b < us.len() implies (#[trigger] us[a]).address != (
    #[trigger] us[b]).address by {
        assert(r.validators[a].address != r.validators[b].address);
    }
}

/// A penalty never takes more than the stake.
pub proof fn lemma_penalty_bounded(stake: nat, percentage: nat)
    requires
        percentage <= 100,
    ensures
        penalty(stake, percentage) <= stake,
{
    assert(stake * percentage <= stake * 100) by (nonlinear_arith)
        requires
            percentage <= 100,
    ;
}

/// Registering a validator keeps the invariant: the total is the sum of
/// the stakes also where the address was registered before.
pub proof fn lemma_with_validator_wf(r: RegistryView, address: Seq<char>, stake: nat)
    requires
        r.wf(),
    ensures
        r.with_validator(address, stake).wf(),
{
    let fresh = enrolled(address, stake);
    if r.knows(address) {
        lemma_replaced_wf(r, r.slot(address), fresh);
    } else {
        lemma_stake_sum_push(r.validators, fresh);
        let vs = r.validators.push(fresh);
        assert forall|a: int, b: int| 0 <= a < b < vs.len() implies (#[trigger] vs[a]).address != (
        #[trigger] vs[b]).address by {
            if b == r.validators.len() {
                assert(!r.at(address, a));
            } else {
                assert(r.validators[a].address != r.validators[b].address);
            }
        }
    }
}

/// Removing a validator keeps the invariant.
pub proof fn lemma_without_wf(r: RegistryView, address: Seq<char>)
    requires
        r.wf(),
    ensures
        r.without(address).wf(),
        !r.knows(address) ==> r.without(address) == r,
{
    if r.knows(address) {
        let i = r.slot(address);
        lemma_stake_sum_remove(r.validators, i);
        let vs = r.validators.remove(i);
        assert forall|a: int, b: int| 0 <= a < b < vs.len() implies (#[trigger] vs[a]).address != (
        #[trigger] vs[b]).address by {
            let a0 = if a < i { a } else { a + 1 };
            let b0 = if b < i { b } else { b + 1 };
            assert(r.validators[a0].address != r.validators[b0].address);
        }
    }
}

/// Every operation keeps the invariant.
pub proof fn lemma_applied_wf(r: RegistryView, op: RegistryOp)
    requires
        r.wf(),
    ensures
        applied(r, op).wf(),
{
    match op {
        RegistryOp::Add { address, stake } => {
            lemma_with_validator_wf(r, address, stake);
        },
        RegistryOp::Update { address, stake } => {
            if r.knows(address) {
                lemma_replaced_wf(
                    r,
                    r.slot(address),
                    ValidatorView { stake, ..r.entry(address) },
                );
            }
        },
        RegistryOp::Remove { address } => {
            lemma_without_wf(r, address);
        },
        RegistryOp::Penalize { address } => {
            if r.knows(address) {
                let v = r.entry(address);
                lemma_penalty_bounded(v.stake, r.penalty_percentage);
                lemma_replaced_wf(
                    r,
                    r.slot(address),
                    ValidatorView {
                        stake: (v.stake - penalty(v.stake, r.penalty_percentage)) as nat,
                        is_active: false,
                        ..v
                    },
                );
            }
        },
        RegistryOp::Reactivate { address } => {
            if r.knows(address) {
                lemma_replaced_wf(
                    r,
                    r.slot(address),
                    ValidatorView { is_active: true, ..r.entry(address) },
                );
            }
        },
        RegistryOp::Record { address, height } => {
            if r.knows(address) {
                lemma_replaced_wf(
                    r,
                    r.slot(address),
                    ValidatorView { last_proposed_block: height, ..r.entry(address) },
                );
            }
        },
    }
}

/// After any sequence of operations on a consistent registry, the total
/// stake is the sum of the stakes of the validators that are registered.
pub proof fn lemma_total_stake_is_sum(r: RegistryView, ops: Seq<RegistryOp>)
    requires
        r.wf(),
    ensures
        applied_all(r, ops).wf(),
        applied_all(r, ops).total_stake == stake_sum(applied_all(r, ops).validators),
    decreases ops.len(),
{
    if ops.len() > 0 {
        lemma_total_stake_is_sum(r, ops.drop_last());
        lemma_applied_wf(applied_all(r, ops.drop_last()), ops.last());
    }
}

/// A penalty lowers the validator's stake, and the total, by the penalty
/// percentage of the stake, rounded down, and makes the validator inactive.
/// Reactivating it afterwards makes it active and leaves the stakes as the
/// penalty left them.
pub proof fn lemma_penalize_then_reactivate(r: RegistryView, address: Seq<char>)
    requires
        r.wf(),
        r.knows(address),
    ensures
        ({
            let taken = penalty(r.entry(address).stake, r.penalty_percentage);
            let p = r.penalized(address);
            let q = p.reactivated(address);
            &&& taken <= r.entry(address).stake
            &&& p.knows(address)
            &&& p.entry(address).stake == r.entry(address).stake - taken
            &&& p.total_stake == r.total_stake - taken
            &&& !p.entry(address).is_active
            &&& taken > 0 ==> p.entry(address).stake < r.entry(address).stake
            &&& q.knows(address)
            &&& q.entry(address).is_active
            &&& q.entry(address).stake == p.entry(address).stake
            &&& q.total_stake == p.total_stake
        }),
{
    let i = r.slot(address);
    let v = r.entry(address);
    let taken = penalty(v.stake, r.penalty_percentage);
    lemma_penalty_bounded(v.stake, r.penalty_percentage);
    let pv = ValidatorView { stake: (v.stake - taken) as nat, is_active: false, ..v };
    lemma_replaced_wf(r, i, pv);
    let p = r.penalized(address);
    assert(p.at(address, i));
    lemma_slot_unique(p, address, i);
    let qv = ValidatorView { is_active: true, ..pv };
    lemma_replaced_wf(p, i, qv);
    let q = p.reactivated(address);
    assert(q.at(address, i));
    lemma_slot_unique(q, address, i);
}

/// Removing an address that is not registered changes nothing, the total
/// stake included.
pub proof fn lemma_remove_unknown(r: RegistryView, address: Seq<char>)
    requires
        !r.knows(address),
    ensures
        r.without(address) == r,
        r.without(address).total_stake == r.total_stake,
{
}

} // verus!
