//! The validator registry as mathematics: what it holds, what each operation
//! makes of it, and who wins a draw.

use vstd::prelude::*;

verus! {

/// A validator as plain data.
pub struct ValidatorView {
    pub address: Seq<char>,
    pub stake: nat,
    pub is_active: bool,
    pub last_proposed_block: nat,
}

/// The registry as plain data. The validators stand in the order in which
/// their addresses were first registered; a draw walks them in that order.
pub struct RegistryView {
    pub validators: Seq<ValidatorView>,
    pub total_stake: nat,
    pub finalty_threshold: nat,
    pub penalty_percentage: nat,
}

/// The sum of the stakes of `vs`.
pub open spec fn stake_sum(vs: Seq<ValidatorView>) -> nat
    decreases vs.len(),
{
    if vs.len() == 0 {
        0
    } else {
        stake_sum(vs.drop_last()) + vs.last().stake
    }
}

/// No address occurs twice in `vs`.
pub open spec fn distinct_addresses(vs: Seq<ValidatorView>) -> bool {
    forall|i: int, j: int|
        0 <= i < j < vs.len() ==> (#[trigger] vs[i]).address != (#[trigger] vs[j]).address
}

/// The record of a validator that has just been registered.
pub open spec fn enrolled(address: Seq<char>, stake: nat) -> ValidatorView {
    ValidatorView { address, stake, is_active: true, last_proposed_block: 0 }
}

/// The stake that a penalty takes: `percentage` hundredths, rounded down.
pub open spec fn penalty(stake: nat, percentage: nat) -> nat {
    stake * percentage / 100
}

/// A validator may propose at height `current` when it is active and at
/// least `threshold` blocks have passed since it last proposed.
pub open spec fn eligible(v: ValidatorView, current: nat, threshold: nat) -> bool {
    v.is_active && current - v.last_proposed_block >= threshold
}

/// The sum of the stakes of those of `vs` that may propose at `current`.
pub open spec fn eligible_stake(vs: Seq<ValidatorView>, current: nat, threshold: nat) -> nat
    decreases vs.len(),
{
    if vs.len() == 0 {
        0
    } else {
        eligible_stake(vs.drop_last(), current, threshold) + if eligible(
            vs.last(),
            current,
            threshold,
        ) {
            vs.last().stake
        } else {
            0
        }
    }
}

impl RegistryView {
    /// The registry's invariant: unique addresses, a total that is the sum
    /// of the stakes, and a penalty of at most the whole stake.
    pub open spec fn wf(self) -> bool {
        &&& distinct_addresses(self.validators)
        &&& self.total_stake == stake_sum(self.validators)
        &&& self.penalty_percentage <= 100
    }

    /// The validator at `i` has the address `address`.
    pub open spec fn at(self, address: Seq<char>, i: int) -> bool {
        0 <= i < self.validators.len() && self.validators[i].address == address
    }

    /// `address` is registered.
    pub open spec fn knows(self, address: Seq<char>) -> bool {
        exists|i: int| self.at(address, i)
    }

    /// Where `address` stands, if it is registered.
    pub open spec fn slot(self, address: Seq<char>) -> int {
        choose|i: int| self.at(address, i)
    }

    /// The record of `address`, if it is registered.
    pub open spec fn entry(self, address: Seq<char>) -> ValidatorView {
        self.validators[self.slot(address)]
    }

    /// The record at `i` replaced by `v`, the total following the stake.
    pub open spec fn replaced(self, i: int, v: ValidatorView) -> RegistryView {
        RegistryView {
            validators: self.validators.update(i, v),
            total_stake: (self.total_stake - self.validators[i].stake + v.stake) as nat,
            ..self
        }
    }

    /// After `add_validator`: a known address is overwritten where it
    /// stands, a new one joins at the end; either way it is active, has
    /// never proposed, and the total counts its stake once.
    pub open spec fn with_validator(self, address: Seq<char>, stake: nat) -> RegistryView {
        if self.knows(address) {
            self.replaced(self.slot(address), enrolled(address, stake))
        } else {
            RegistryView {
                validators: self.validators.push(enrolled(address, stake)),
                total_stake: self.total_stake + stake,
                ..self
            }
        }
    }

    /// After `update_validator`: the stake of a known address is `stake`.
    pub open spec fn with_stake(self, address: Seq<char>, stake: nat) -> RegistryView {
        if self.knows(address) {
            self.replaced(self.slot(address), ValidatorView { stake, ..self.entry(address) })
        } else {
            self
        }
    }

    /// After `remove_validator`: a known address is gone, and its stake
    /// with it.
    pub open spec fn without(self, address: Seq<char>) -> RegistryView {
        if self.knows(address) {
            RegistryView {
                validators: self.validators.remove(self.slot(address)),
                total_stake: (self.total_stake - self.entry(address).stake) as nat,
                ..self
            }
        } else {
            self
        }
    }

    /// After `penalize_validator`: a known address has lost the penalty
    /// from its stake and is inactive.
    pub open spec fn penalized(self, address: Seq<char>) -> RegistryView {
        if self.knows(address) {
            let v = self.entry(address);
            self.replaced(
                self.slot(address),
                ValidatorView {
                    stake: (v.stake - penalty(v.stake, self.penalty_percentage)) as nat,
                    is_active: false,
                    ..v
                },
            )
        } else {
            self
        }
    }

    /// After `reactivate_validator`: a known address is active.
    pub open spec fn reactivated(self, address: Seq<char>) -> RegistryView {
        if self.knows(address) {
            self.replaced(
                self.slot(address),
                ValidatorView { is_active: true, ..self.entry(address) },
            )
        } else {
            self
        }
    }

    /// After `update_last_proposed_block`: a known address last proposed
    /// at `height`.
    pub open spec fn recorded(self, address: Seq<char>, height: nat) -> RegistryView {
        if self.knows(address) {
            self.replaced(
                self.slot(address),
                ValidatorView { last_proposed_block: height, ..self.entry(address) },
            )
        } else {
            self
        }
    }

    /// A block at `height` is final at `reference` when at least the
    /// finality threshold lies between the two.
    pub open spec fn finalized(self, height: nat, reference: nat) -> bool {
        reference - height >= self.finalty_threshold
    }

    /// The validator at `i` may propose at height `current`.
    pub open spec fn eligible_at(self, i: int, current: nat) -> bool {
        0 <= i < self.validators.len() && eligible(
            self.validators[i],
            current,
            self.finalty_threshold,
        )
    }

    /// The eligible stake that stands before position `i`.
    pub open spec fn eligible_before(self, i: int, current: nat) -> nat {
        eligible_stake(self.validators.take(i), current, self.finalty_threshold)
    }

    /// The draw `draw` falls to the validator at `i`: it is eligible, and
    /// `draw` lies in the stretch of eligible stake that is its own.
    pub open spec fn wins(self, i: int, current: nat, draw: nat) -> bool {
        &&& self.eligible_at(i, current)
        &&& self.eligible_before(i, current) <= draw < self.eligible_before(i, current)
            + self.validators[i].stake
    }

    /// What a random draw may give at height `current`: with a total
    /// stake of zero nobody; else what some draw below the total selects.
    pub open spec fn may_select(self, current: nat, outcome: Option<Seq<char>>) -> bool {
        if self.total_stake == 0 {
            outcome is None
        } else {
            exists|draw: nat|
                draw < self.total_stake && #[trigger] self.proposer(current, draw) == outcome
        }
    }

    /// The address that the draw `draw` selects at height `current`, if it
    /// selects one.
    pub open spec fn proposer(self, current: nat, draw: nat) -> Option<Seq<char>> {
        if exists|i: int| self.wins(i, current, draw) {
            Some(self.validators[choose|i: int| self.wins(i, current, draw)].address)
        } else {
            None
        }
    }
}

/// One operation on the registry.
pub enum RegistryOp {
    Add { address: Seq<char>, stake: nat },
    Update { address: Seq<char>, stake: nat },
    Remove { address: Seq<char> },
    Penalize { address: Seq<char> },
    Reactivate { address: Seq<char> },
    Record { address: Seq<char>, height: nat },
}

/// The registry after `op`.
pub open spec fn applied(r: RegistryView, op: RegistryOp) -> RegistryView {
    match op {
        RegistryOp::Add { address, stake } => r.with_validator(address, stake),
        RegistryOp::Update { address, stake } => r.with_stake(address, stake),
        RegistryOp::Remove { address } => r.without(address),
        RegistryOp::Penalize { address } => r.penalized(address),
        RegistryOp::Reactivate { address } => r.reactivated(address),
        RegistryOp::Record { address, height } => r.recorded(address, height),
    }
}

/// The registry after `ops`, one after the other.
pub open spec fn applied_all(r: RegistryView, ops: Seq<RegistryOp>) -> RegistryView
    decreases ops.len(),
{
    if ops.len() == 0 {
        r
    } else {
        applied(applied_all(r, ops.drop_last()), ops.last())
    }
}

} // verus!
