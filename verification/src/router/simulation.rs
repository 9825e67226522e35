//! What a route would come to.
//!
//! Every hop is asked two questions, in order: whether its pool is open, and what it would
//! return for the output of the hop before it.

use vstd::prelude::*;

use crate::error::StdError;
use crate::number::{decimal_checked_mul, decimal_from_ratio, ratio, Decimal, ONE};
use crate::pool::swap_helper::{lemma_commission_at_most_gross, lemma_part_ratio};
use crate::router::error::{in_router, RouterError};
use crate::router::execution::{route_error, validate_route};
use crate::router::msg::{SimulateMultiHopResponse, SwapOperation};

verus! {

/// Whether a pool is open, as it says.
#[derive(Clone, Copy, Debug, PartialEq, Eq, Structural)]
pub enum RouterPoolCommitStatus {
    InProgress { raised: u128, target: u128 },
    FullyCommitted,
}

/// What a pool would return, as it says.
#[derive(Clone, Copy, Debug, PartialEq, Eq, Structural)]
pub struct RouterSwapSimulationResponse {
    pub return_amount: u128,
    pub spread_amount: u128,
    pub commission_amount: u128,
}

/// What the pool of a hop answered to both questions.
#[derive(Debug)]
pub struct HopAnswer {
    pub status: Result<RouterPoolCommitStatus, StdError>,
    pub simulation: Result<RouterSwapSimulationResponse, StdError>,
}

/// A simulation up to some hop.
#[derive(Debug)]
pub struct Simulation {
    /// The output of every hop so far.
    pub amounts: Vec<u128>,
    /// What is left after the slippage of every hop so far: the product of the parts that
    /// each of them kept.
    pub survival: Decimal,
    /// What goes into the next hop.
    pub current_input: u128,
}

/// The part of its ideal output that a hop keeps; all of it where there is none.
pub open spec fn kept_part(sim: RouterSwapSimulationResponse) -> int {
    let ideal = sim.return_amount + sim.spread_amount;
    if ideal == 0 {
        ONE as int
    } else {
        ratio(sim.return_amount as int, ideal)
    }
}

/// What a hop keeps of what was left before it.
pub open spec fn survival_after(before: int, sim: RouterSwapSimulationResponse) -> int {
    if sim.return_amount + sim.spread_amount == 0 {
        before
    } else {
        before * kept_part(sim) / (ONE as int)
    }
}

/// Why a hop fails, where it does.
pub open spec fn hop_error(op: SwapOperation, i: int, answer: HopAnswer) -> Option<RouterError> {
    match answer.status {
        Err(e) => Some(RouterError::Std(e)),
        Ok(RouterPoolCommitStatus::InProgress { raised, target }) => Some(
            RouterError::PoolInCommitPhase {
                hop_index: i as usize,
                pool_addr: op.pool_addr,
                raised,
                target,
            },
        ),
        Ok(RouterPoolCommitStatus::FullyCommitted) => match answer.simulation {
            Err(e) => Some(RouterError::Std(e)),
            Ok(sim) => if sim.return_amount + sim.spread_amount > u128::MAX {
                Some(RouterError::Std(StdError::Generic("simulation amount overflow")))
            } else {
                None
            },
        },
    }
}

/// What is left of the first `n` hops, in atomics.
pub open spec fn survival_of(answers: Seq<HopAnswer>, n: int) -> int
    decreases n,
{
    if n <= 0 {
        ONE as int
    } else {
        survival_after(survival_of(answers, n - 1), answers[n - 1].simulation->Ok_0)
    }
}

/// The first failure of a route, from hop `from` on.
pub open spec fn first_hop_error(
    ops: Seq<SwapOperation>,
    answers: Seq<HopAnswer>,
    from: int,
) -> Option<RouterError>
    decreases ops.len() - from,
{
    if from < 0 || from >= ops.len() {
        None
    } else {
        match hop_error(ops[from], from, answers[from]) {
            Some(e) => Some(e),
            None => first_hop_error(ops, answers, from + 1),
        }
    }
}

/// What is left stays between nothing and all of it.
pub proof fn lemma_survival_bounds(before: int, sim: RouterSwapSimulationResponse)
    requires
        0 <= before <= ONE,
    ensures
        0 <= kept_part(sim) <= ONE,
        0 <= survival_after(before, sim) <= before,
        before * kept_part(sim) / (ONE as int) <= u128::MAX,
{
    let ideal = sim.return_amount + sim.spread_amount;
    if ideal != 0 {
        lemma_part_ratio(sim.return_amount as int, ideal);
    }
    lemma_commission_at_most_gross(before, kept_part(sim));
}

impl Simulation {
    /// What goes into the first hop, with nothing lost so far.
    pub fn begin(operations: &Vec<SwapOperation>, offer_amount: u128) -> (r: Result<
        Simulation,
        RouterError,
    >)
        ensures
            if offer_amount == 0 {
                r == Err::<Simulation, RouterError>(RouterError::ZeroAmount)
            } else if route_error(operations@) is Some {
                r == Err::<Simulation, RouterError>(route_error(operations@)->Some_0)
            } else {
                r matches Ok(s) && s.amounts@.len() == 0 && s.survival.atomics == ONE
                    && s.current_input == offer_amount
            },
    {
        if offer_amount == 0 {
            return Err(RouterError::ZeroAmount);
        }
        validate_route(operations)?;
        Ok(
            Simulation {
                amounts: Vec::new(),
                survival: Decimal::one(),
                current_input: offer_amount,
            },
        )
    }

    /// Takes the answers of the pool of hop `i`.
    pub fn hop(&mut self, operation: &SwapOperation, i: usize, answer: HopAnswer) -> (r: Result<
        (),
        RouterError,
    >)
        requires
            old(self).survival.atomics <= ONE,
        ensures
            final(self).survival.atomics <= ONE,
            match hop_error(*operation, i as int, answer) {
                Some(e) => r == Err::<(), RouterError>(e) && *final(self) == *old(self),
                None => {
                    &&& r is Ok
                    &&& final(self).amounts@ == old(self).amounts@.push(
                        answer.simulation->Ok_0.return_amount,
                    )
                    &&& final(self).current_input == answer.simulation->Ok_0.return_amount
                    &&& final(self).survival.atomics == survival_after(
                        old(self).survival.atomics as int,
                        answer.simulation->Ok_0,
                    )
                },
            },
    {
        if let RouterPoolCommitStatus::InProgress { raised, target } = in_router(answer.status)? {
            return Err(
                RouterError::PoolInCommitPhase {
                    hop_index: i,
                    pool_addr: operation.pool_addr.clone(),
                    raised,
                    target,
                },
            );
        }
        let sim = in_router(answer.simulation)?;
        let ideal: u128 = match sim.return_amount.checked_add(sim.spread_amount) {
            Some(ideal) => ideal,
            None => {
                return Err(RouterError::Std(StdError::Generic("simulation amount overflow")));
            },
        };
        proof {
            lemma_survival_bounds(self.survival.atomics as int, sim);
        }
        if ideal != 0 {
            let factor = decimal_from_ratio(sim.return_amount, ideal);
            self.survival = match decimal_checked_mul(self.survival, factor) {
                Some(survival) => survival,
                None => {
                    assert(false);
                    return Err(RouterError::Std(StdError::Generic("price impact overflow")));
                },
            };
        }
        self.amounts.push(sim.return_amount);
        self.current_input = sim.return_amount;
        Ok(())
    }

    /// What the route comes to.
    pub fn finish(self) -> (r: SimulateMultiHopResponse)
        requires
            self.amounts@.len() > 0,
            self.survival.atomics <= ONE,
        ensures
            r.intermediate_amounts == self.amounts,
            r.final_amount == self.amounts@.last(),
            r.price_impact.atomics == ONE - self.survival.atomics,
    {
        let final_amount: u128 = self.amounts[self.amounts.len() - 1];
        let price_impact = Decimal { atomics: ONE - self.survival.atomics };
        SimulateMultiHopResponse {
            final_amount,
            intermediate_amounts: self.amounts,
            price_impact,
        }
    }
}

/// Simulates a route. `answers` is what the pool of each hop answered, asked with the
/// output of the hop before it.
///
/// The price impact is one less the product of what every hop keeps of its ideal output.
pub fn simulate_multi_hop(
    operations: &Vec<SwapOperation>,
    offer_amount: u128,
    answers: Vec<HopAnswer>,
) -> (r: Result<SimulateMultiHopResponse, RouterError>)
    requires
        answers@.len() == operations@.len(),
    ensures
        if offer_amount == 0 {
            r == Err::<SimulateMultiHopResponse, RouterError>(RouterError::ZeroAmount)
        } else if route_error(operations@) is Some {
            r == Err::<SimulateMultiHopResponse, RouterError>(route_error(operations@)->Some_0)
        } else {
            match first_hop_error(operations@, answers@, 0) {
                Some(e) => r == Err::<SimulateMultiHopResponse, RouterError>(e),
                None => {
                    &&& r matches Ok(s)
                    &&& s.intermediate_amounts@ == Seq::new(
                        answers@.len(),
                        |i: int| answers@[i].simulation->Ok_0.return_amount,
                    )
                    &&& s.final_amount == s.intermediate_amounts@.last()
                    &&& s.price_impact.atomics == ONE - survival_of(
                        answers@,
                        answers@.len() as int,
                    )
                },
            }
        },
{
    let mut simulation = Simulation::begin(operations, offer_amount)?;
    let ghost all = answers@;
    let mut rest = answers;
    let len: usize = operations.len();
    let mut i: usize = 0;
    while i < len
        invariant
            len == operations@.len(),
            all.len() == len,
            i <= len,
            all == answers@,
            rest@ == all.subrange(i as int, len as int),
            first_hop_error(operations@, all, 0) == first_hop_error(operations@, all, i as int),
            simulation.amounts@ == Seq::new(
                i as nat,
                |k: int| all[k].simulation->Ok_0.return_amount,
            ),
            simulation.survival.atomics == survival_of(all, i as int),
            simulation.survival.atomics <= ONE,
            offer_amount != 0,
            route_error(operations@) is None,
            len > 0,
        decreases len - i,
    {
        let answer = rest.remove(0);
        assert(answer == all[i as int]);
        simulation.hop(&operations[i], i, answer)?;
        i += 1;
        assert(rest@ =~= all.subrange(i as int, len as int));
        assert(simulation.amounts@ =~= Seq::new(
            i as nat,
            |k: int| all[k].simulation->Ok_0.return_amount,
        ));
    }
    Ok(simulation.finish())
}

} // verus!
