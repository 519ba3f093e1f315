//! The validator registry: who holds how much stake, who may propose, and
//! the stake-weighted draw of the next proposer.

use rand::Rng;
use vstd::prelude::*;
use crate::blockchain::pos_laws::{
    lemma_eligible_before_bounded, lemma_eligible_before_step, lemma_proposer_iff_draw_below_eligible,
    lemma_proposer_is_eligible, lemma_replaced_wf, lemma_slot_unique, lemma_stake_sum_push, lemma_stake_sum_remove,
    lemma_stake_sum_take, lemma_winner_is_proposer,
};
use crate::blockchain::pos_spec::{
    eligible, eligible_stake, enrolled, penalty, stake_sum, RegistryView, ValidatorView,
};

verus! {

/// An account that may propose blocks, weighted by its stake.
#[derive(Debug, Clone)]
pub struct Validator {
    pub address: String,
    pub stake: u64,
    pub is_active: bool,
    pub last_proposed_block: u64,
}

impl View for Validator {
    type V = ValidatorView;

    open spec fn view(&self) -> ValidatorView {
        ValidatorView {
            address: self.address@,
            stake: self.stake as nat,
            is_active: self.is_active,
            last_proposed_block: self.last_proposed_block as nat,
        }
    }
}

/// Why the registry refused an operation.
#[derive(Debug, Clone, Copy, PartialEq, Eq, Structural)]
pub enum PosError {
    /// The address is not registered.
    UnknownValidator,
    /// The total stake would no longer fit in 64 bits.
    StakeOverflow,
}

/// The validator registry. The validators stand in the order in which their
/// addresses were first registered.
#[derive(Debug, Clone)]
pub struct PosMechanism {
    pub validators: Vec<Validator>,
    pub total_stake: u64,
    pub finalty_threshold: u64,
    pub penalty_percentage: u64,
}

impl View for PosMechanism {
    type V = RegistryView;

    open spec fn view(&self) -> RegistryView {
        RegistryView {
            validators: self.validators@.map_values(|v: Validator| v@),
            total_stake: self.total_stake as nat,
            finalty_threshold: self.finalty_threshold as nat,
            penalty_percentage: self.penalty_percentage as nat,
        }
    }
}

impl PosMechanism {
    /// The registry's invariant: no address twice, the total is the sum of
    /// the stakes, the penalty is a percentage.
    pub open spec fn wf(&self) -> bool {
        self@.wf()
    }

    /// An empty registry.
    pub fn new(finalty_threshold: u64, penalty_percentage: u64) -> (r: PosMechanism)
        requires
            penalty_percentage <= 100,
        ensures
            r.wf(),
            r@.validators == Seq::<ValidatorView>::empty(),
            r@.total_stake == 0,
            r@.finalty_threshold == finalty_threshold,
            r@.penalty_percentage == penalty_percentage,
    {
        let r = PosMechanism {
            validators: Vec::new(),
            total_stake: 0,
            finalty_threshold,
            penalty_percentage,
        };
        assert(r@.validators =~= Seq::<ValidatorView>::empty());
        r
    }

    /// Whether the invariant holds: whether no address stands twice, the
    /// total is the sum of the stakes, and the penalty is at most 100
    /// percent.
    pub fn is_consistent(&self) -> (r: bool)
        ensures
            r == self.wf(),
    {
        if self.penalty_percentage > 100 {
            return false;
        }
        let mut sum: u64 = 0;
        let mut i: usize = 0;
        while i < self.validators.len()
            invariant
                i <= self.validators.len(),
                sum == stake_sum(self@.validators.take(i as int)),
                forall|a: int, b: int|
                    0 <= a < b < i ==> (#[trigger] self@.validators[a]).address != (
                    #[trigger] self@.validators[b]).address,
            decreases self.validators.len() - i,
        {
            proof {
                lemma_stake_sum_take(self@.validators, i as int);
            }
            let stake: u64 = self.validators[i].stake;
            if stake > self.total_stake || sum > self.total_stake - stake {
                return false;
            }
            let mut j: usize = 0;
            while j < i
                invariant
                    j <= i < self.validators.len(),
                    forall|a: int|
                        0 <= a < j ==> (#[trigger] self@.validators[a]).address
                            != self@.validators[i as int].address,
                decreases i - j,
            {
                if self.validators[j].address == self.validators[i].address {
                    assert(self@.validators[j as int].address
                        == self@.validators[i as int].address);
                    return false;
                }
                j += 1;
            }
            sum = sum + stake;
            i += 1;
        }
        assert(self@.validators.take(i as int) =~= self@.validators);
        sum == self.total_stake
    }

    /// Where `address` stands in the registry, if it is registered.
    fn position(&self, address: &str) -> (r: Option<usize>)
        requires
            self.wf(),
        ensures
            match r {
                Some(i) => self@.at(address@, i as int) && self@.knows(address@) && self@.slot(
                    address@,
                ) == i,
                None => !self@.knows(address@),
            },
    {
        let key: String = address.to_owned();
        let mut i: usize = 0;
        while i < self.validators.len()
            invariant
                self.wf(),
                key@ == address@,
                i <= self.validators.len(),
                forall|j: int| 0 <= j < i ==> !self@.at(address@, j),
            decreases self.validators.len() - i,
        {
            if self.validators[i].address == key {
                proof {
                    lemma_slot_unique(self@, address@, i as int);
                }
                return Some(i);
            }
            i += 1;
        }
        None
    }

    /// Registers `address` with `stake`, active and without a proposal to
    /// its name. A registered address is overwritten where it stands, and
    /// its earlier stake leaves the total. Nothing changes where the total
    /// would pass 64 bits.
    pub fn add_validator(&mut self, address: String, stake: u64) -> (r: Result<(), PosError>)
        requires
            old(self).wf(),
        ensures
            final(self).wf(),
            r is Err <==> old(self)@.with_validator(address@, stake as nat).total_stake > u64::MAX,
            match r {
                Ok(_) => final(self)@ == old(self)@.with_validator(address@, stake as nat),
                Err(e) => e == PosError::StakeOverflow && *final(self) == *old(self),
            },
    {
        let fresh = Validator { address, stake, is_active: true, last_proposed_block: 0 };
        assert(fresh@ == enrolled(address@, stake as nat));
        match self.position(fresh.address.as_str()) {
            Some(i) => {
                proof {
                    lemma_stake_sum_remove(self@.validators, i as int);
                    lemma_replaced_wf(self@, i as int, fresh@);
                }
                let rest: u64 = self.total_stake - self.validators[i].stake;
                if stake > u64::MAX - rest {
                    return Err(PosError::StakeOverflow);
                }
                self.validators[i] = fresh;
                self.total_stake = rest + stake;
                assert(self@.validators =~= old(self)@.validators.update(i as int, fresh@));
                Ok(())
            },
            None => {
                if stake > u64::MAX - self.total_stake {
                    return Err(PosError::StakeOverflow);
                }
                proof {
                    lemma_stake_sum_push(self@.validators, fresh@);
                }
                self.validators.push(fresh);
                self.total_stake = self.total_stake + stake;
                assert(self@.validators =~= old(self)@.validators.push(fresh@));
                assert forall|a: int, b: int| 0 <= a < b < self@.validators.len() implies (
                #[trigger] self@.validators[a]).address != (
                #[trigger] self@.validators[b]).address by {
                    if b == old(self)@.validators.len() {
                        assert(!old(self)@.at(address@, a));
                    } else {
                        assert(old(self)@.validators[a].address != old(self)@.validators[b].address);
                    }
                }
                Ok(())
            },
        }
    }
    /// Removes `address` and takes its stake from the total. An address
    /// that is not registered is reported, and nothing changes.
    pub fn remove_validator(&mut self, address: String) -> (r: Result<(), PosError>)
        requires
            old(self).wf(),
        ensures
            final(self).wf(),
            r is Ok <==> old(self)@.knows(address@),
            match r {
                Ok(_) => final(self)@ == old(self)@.without(address@),
                Err(e) => e == PosError::UnknownValidator && *final(self) == *old(self),
            },
    {
        match self.position(address.as_str()) {
            Some(i) => {
                proof {
                    lemma_stake_sum_remove(self@.validators, i as int);
                }
                let gone = self.validators.remove(i);
                self.total_stake = self.total_stake - gone.stake;
                assert(self@.validators =~= old(self)@.validators.remove(i as int));
                Ok(())
            },
            None => Err(PosError::UnknownValidator),
        }
    }

    /// Sets the stake of `address` to `new_stake` and moves the total by
    /// the difference. Nothing changes where the address is not registered
    /// or the total would pass 64 bits.
    pub fn update_validator(&mut self, address: String, new_stake: u64) -> (r: Result<
        (),
        PosError,
    >)
        requires
            old(self).wf(),
        ensures
            final(self).wf(),
            r == Err::<(), PosError>(PosError::UnknownValidator) <==> !old(self)@.knows(address@),
            r == Err::<(), PosError>(PosError::StakeOverflow) <==> old(self)@.knows(address@)
                && old(self)@.with_stake(address@, new_stake as nat).total_stake > u64::MAX,
            match r {
                Ok(_) => final(self)@ == old(self)@.with_stake(address@, new_stake as nat),
                Err(_) => *final(self) == *old(self),
            },
    {
        match self.position(address.as_str()) {
            Some(i) => {
                let ghost changed = ValidatorView {
                    stake: new_stake as nat,
                    ..self@.validators[i as int]
                };
                proof {
                    lemma_stake_sum_remove(self@.validators, i as int);
                    lemma_replaced_wf(self@, i as int, changed);
                }
                let rest: u64 = self.total_stake - self.validators[i].stake;
                if new_stake > u64::MAX - rest {
                    return Err(PosError::StakeOverflow);
                }
                self.validators[i].stake = new_stake;
                self.total_stake = rest + new_stake;
                assert(self@.validators =~= old(self)@.validators.update(i as int, changed));
                Ok(())
            },
            None => Err(PosError::UnknownValidator),
        }
    }

    /// Takes the penalty from the stake of `address`, and from the total,
    /// and makes the validator inactive. An address that is not registered
    /// is reported, and nothing changes.
    pub fn penalize_validator(&mut self, address: &str) -> (r: Result<(), PosError>)
        requires
            old(self).wf(),
        ensures
            final(self).wf(),
            final(self)@ == old(self)@.penalized(address@),
            r is Ok <==> old(self)@.knows(address@),
            r is Err ==> r == Err::<(), PosError>(PosError::UnknownValidator) && *final(self)
                == *old(self),
    {
        match self.position(address) {
            Some(i) => {
                let stake: u64 = self.validators[i].stake;
                let taken: u64 = stake_share(stake, self.penalty_percentage);
                let ghost changed = ValidatorView {
                    stake: (stake - taken) as nat,
                    is_active: false,
                    ..self@.validators[i as int]
                };
                proof {
                    lemma_stake_sum_remove(self@.validators, i as int);
                    lemma_replaced_wf(self@, i as int, changed);
                }
                self.validators[i].stake = stake - taken;
                self.validators[i].is_active = false;
                self.total_stake = self.total_stake - taken;
                assert(self@.validators =~= old(self)@.validators.update(i as int, changed));
                Ok(())
            },
            None => Err(PosError::UnknownValidator),
        }
    }

    /// Makes `address` active again; its stake stays as it is. An address
    /// that is not registered is reported, and nothing changes.
    pub fn reactivate_validator(&mut self, address: &str) -> (r: Result<(), PosError>)
        requires
            old(self).wf(),
        ensures
            final(self).wf(),
            final(self)@ == old(self)@.reactivated(address@),
            r is Ok <==> old(self)@.knows(address@),
            r is Err ==> r == Err::<(), PosError>(PosError::UnknownValidator) && *final(self)
                == *old(self),
    {
        match self.position(address) {
            Some(i) => {
                let ghost changed = ValidatorView { is_active: true, ..self@.validators[i as int] };
                proof {
                    lemma_replaced_wf(self@, i as int, changed);
                }
                self.validators[i].is_active = true;
                assert(self@.validators =~= old(self)@.validators.update(i as int, changed));
                Ok(())
            },
            None => Err(PosError::UnknownValidator),
        }
    }

    /// Notes that `address` proposed the block at `block_number`. An
    /// address that is not registered is reported, and nothing changes.
    pub fn update_last_proposed_block(&mut self, address: &str, block_number: u64) -> (r: Result<
        (),
        PosError,
    >)
        requires
            old(self).wf(),
        ensures
            final(self).wf(),
            final(self)@ == old(self)@.recorded(address@, block_number as nat),
            r is Ok <==> old(self)@.knows(address@),
            r is Err ==> r == Err::<(), PosError>(PosError::UnknownValidator) && *final(self)
                == *old(self),
    {
        match self.position(address) {
            Some(i) => {
                let ghost changed = ValidatorView {
                    last_proposed_block: block_number as nat,
                    ..self@.validators[i as int]
                };
                proof {
                    lemma_replaced_wf(self@, i as int, changed);
                }
                self.validators[i].last_proposed_block = block_number;
                assert(self@.validators =~= old(self)@.validators.update(i as int, changed));
                Ok(())
            },
            None => Err(PosError::UnknownValidator),
        }
    }

    /// Whether the block at `block_number` is final at `reference`, which
    /// is counted as block numbers are: whether at least the finality
    /// threshold lies between the two.
    pub fn is_finalized(&self, block_number: u64, reference: u64) -> (r: bool)
        ensures
            r == self@.finalized(block_number as nat, reference as nat),
    {
        reference >= block_number && reference - block_number >= self.finalty_threshold
    }

    /// The proposer that the draw `draw` selects for the block at
    /// `current_block_number`: the validators are walked in their order,
    /// the stakes of the eligible ones are added up, and the first one with
    /// whom the sum passes `draw` is selected. Nobody is selected where the
    /// eligible stake does not pass `draw`.
    pub fn pick_validator(&self, current_block_number: u64, draw: u64) -> (r: Option<String>)
        requires
            self.wf(),
        ensures
            address_view(r) == self@.proposer(current_block_number as nat, draw as nat),
            match r {
                Some(address) => self@.knows(address@) && eligible(
                    self@.entry(address@),
                    current_block_number as nat,
                    self@.finalty_threshold,
                ),
                None => draw >= eligible_stake(
                    self@.validators,
                    current_block_number as nat,
                    self@.finalty_threshold,
                ),
            },
    {
        let ghost current = current_block_number as nat;
        let mut cumulative_stake: u64 = 0;
        let mut i: usize = 0;
        while i < self.validators.len()
            invariant
                self.wf(),
                current == current_block_number as nat,
                i <= self.validators.len(),
                cumulative_stake == self@.eligible_before(i as int, current),
                cumulative_stake <= draw,
                forall|j: int| 0 <= j < i ==> !self@.wins(j, current, draw as nat),
            decreases self.validators.len() - i,
        {
            proof {
                lemma_eligible_before_step(self@, i as int, current);
                lemma_eligible_before_bounded(self@, i as int + 1, current);
            }
            let validator = &self.validators[i];
            if validator.is_active && current_block_number >= validator.last_proposed_block
                && current_block_number - validator.last_proposed_block
                >= self.finalty_threshold {
                cumulative_stake = cumulative_stake + validator.stake;
                if draw < cumulative_stake {
                    proof {
                        lemma_winner_is_proposer(self@, i as int, current, draw as nat);
                        lemma_proposer_is_eligible(self@, current, draw as nat);
                    }
                    return Some(validator.address.clone());
                }
            }
            i += 1;
        }
        proof {
            assert forall|j: int| !self@.wins(j, current, draw as nat) by {
                assert(self@.wins(j, current, draw as nat) ==> 0 <= j < i);
            }
            lemma_proposer_iff_draw_below_eligible(self@, current, draw as nat);
        }
        None
    }

    /// Draws the proposer of the block at `current_block_number`: a number
    /// below the total stake is drawn at random, and `pick_validator`
    /// selects by it. Nobody is selected in an empty registry, nor where
    /// the total stake is zero.
    pub fn select_validator(&self, current_block_number: u64) -> (r: Option<String>)
        requires
            self.wf(),
        ensures
            self@.may_select(current_block_number as nat, address_view(r)),
            r matches Some(address) ==> self@.knows(address@) && eligible(
                self@.entry(address@),
                current_block_number as nat,
                self@.finalty_threshold,
            ),
            self.validators.len() == 0 || self.total_stake == 0 ==> r is None,
    {
        if self.validators.len() == 0 || self.total_stake == 0 {
            return None;
        }
        let mut rng = rand::thread_rng();
        let draw = draw_below(&mut rng, self.total_stake);
        self.pick_validator(current_block_number, draw)
    }
}

/// The address in `r` as a sequence of characters.
pub open spec fn address_view(r: Option<String>) -> Option<Seq<char>> {
    match r {
        Some(address) => Some(address@),
        None => None,
    }
}

/// The generator of `rand` that each thread has for itself.
#[verifier::external_type_specification]
#[verifier::external_body]
pub struct ExThreadRng(rand::rngs::ThreadRng);

/// `rand::thread_rng` hands out the calling thread's generator. Nothing is
/// claimed of it.
pub assume_specification[ rand::thread_rng ]() -> (rng: rand::rngs::ThreadRng)
;

/// `Rng::gen_range` on the range from 0 up to, and without, `bound`. The
/// range must not be empty; what is drawn lies in it. Which number is drawn
/// is left open.
#[verifier::external_body]
fn draw_below(rng: &mut rand::rngs::ThreadRng, bound: u64) -> (r: u64)
    requires
        bound > 0,
    ensures
        r < bound,
{
    rng.gen_range(0..bound)
}

/// `percentage` hundredths of `stake`, rounded down.
fn stake_share(stake: u64, percentage: u64) -> (r: u64)
    requires
        percentage <= 100,
    ensures
        r == penalty(stake as nat, percentage as nat),
        r <= stake,
{
    assert(stake * percentage <= stake * 100) by (nonlinear_arith)
        requires
            percentage <= 100,
    ;
    let product: u128 = (stake as u128) * (percentage as u128);
    (product / 100) as u64
}

} // verus!
