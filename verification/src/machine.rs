use vstd::prelude::*;

verus! {

/// The two lists of middleware that stand around the handler.
#[derive(Clone, Copy, Debug, PartialEq, Eq, Structural)]
pub enum Phase {
    Before,
    After,
}

/// Where a chain stands: which stage it calls next, and how.
///
/// A chain with `nb` stages before the handler and `na` after it starts at
/// `start(nb, na)` and moves by `step` after every call, whatever the stages
/// do with the request and the response.
#[derive(Clone, Copy, Debug, PartialEq, Eq, Structural)]
pub enum State {
    /// Nothing is wrong: the stage at this index of this list is called in
    /// the ordinary way.
    Running(Phase, usize),
    /// Nothing is wrong, and the handler is called.
    Handling,
    /// A failure is on its way: the stage at this index of this list is
    /// asked to catch it.
    Recovering(Phase, usize),
    /// No stage is left. The chain ended well, or it did not.
    Done(bool),
}

impl State {
    /// The state names a stage that a chain of `nb` and `na` stages has.
    pub open spec fn wf(self, nb: usize, na: usize) -> bool {
        match self {
            State::Running(Phase::Before, i) => i < nb,
            State::Recovering(Phase::Before, i) => i < nb,
            State::Running(Phase::After, j) => j < na,
            State::Recovering(Phase::After, j) => j < na,
            State::Handling => true,
            State::Done(_) => true,
        }
    }

    /// The place of the state's stage in the order of the chain: the stages
    /// before the handler come first, then the handler, then the stages
    /// after it, and `Done` stands behind them all.
    pub open spec fn slot(self, nb: usize, na: usize) -> int {
        match self {
            State::Running(Phase::Before, i) => i as int,
            State::Recovering(Phase::Before, i) => i as int,
            State::Handling => nb as int,
            State::Running(Phase::After, j) => nb + 1 + j,
            State::Recovering(Phase::After, j) => nb + 1 + j,
            State::Done(_) => nb + 1 + na,
        }
    }

    /// The state stands for a call of `before`.
    pub open spec fn is_before(self) -> bool {
        self matches State::Running(Phase::Before, _)
    }

    pub fn is_done(self) -> (b: bool)
        ensures
            b == (self is Done),
    {
        match self {
            State::Done(_) => true,
            _ => false,
        }
    }
}

/// The state in which the stages after the handler are entered.
pub open spec fn enter_after_spec(na: usize, ok: bool) -> State {
    if na == 0 {
        State::Done(ok)
    } else if ok {
        State::Running(Phase::After, 0)
    } else {
        State::Recovering(Phase::After, 0)
    }
}

/// The state in which a chain starts.
pub open spec fn start_spec(nb: usize, na: usize) -> State {
    if nb == 0 {
        State::Handling
    } else {
        State::Running(Phase::Before, 0)
    }
}

/// The state that follows `state` once the call that `state` stands for has
/// ended well (`ok`) or has failed.
///
/// A stage before the handler is followed by the next one, which is called
/// in the ordinary way after a success and asked to catch after a failure.
/// Behind the last of them stands the handler, which a failure passes over.
/// The stages after the handler follow each other in the same way. `Done`
/// stays as it is.
pub open spec fn step_spec(nb: usize, na: usize, state: State, ok: bool) -> State {
    match state {
        State::Running(Phase::Before, i) | State::Recovering(Phase::Before, i) => {
            if i + 1 < nb {
                if ok {
                    State::Running(Phase::Before, (i + 1) as usize)
                } else {
                    State::Recovering(Phase::Before, (i + 1) as usize)
                }
            } else if ok {
                State::Handling
            } else {
                enter_after_spec(na, false)
            }
        },
        State::Handling => enter_after_spec(na, ok),
        State::Running(Phase::After, j) | State::Recovering(Phase::After, j) => {
            if j + 1 < na {
                if ok {
                    State::Running(Phase::After, (j + 1) as usize)
                } else {
                    State::Recovering(Phase::After, (j + 1) as usize)
                }
            } else {
                State::Done(ok)
            }
        },
        State::Done(ended_well) => State::Done(ended_well),
    }
}

fn enter_after(na: usize, ok: bool) -> (next: State)
    ensures
        next == enter_after_spec(na, ok),
{
    if na == 0 {
        State::Done(ok)
    } else if ok {
        State::Running(Phase::After, 0)
    } else {
        State::Recovering(Phase::After, 0)
    }
}

/// The state in which a chain of `nb` stages before the handler and `na`
/// after it starts.
pub fn start(nb: usize, na: usize) -> (state: State)
    ensures
        state == start_spec(nb, na),
        state.wf(nb, na),
        !(state is Done),
{
    if nb == 0 {
        State::Handling
    } else {
        State::Running(Phase::Before, 0)
    }
}

/// Moves on from `state`, whose call has ended well (`ok`) or has failed.
pub fn step(nb: usize, na: usize, state: State, ok: bool) -> (next: State)
    requires
        state.wf(nb, na),
    ensures
        next == step_spec(nb, na, state, ok),
        next.wf(nb, na),
{
    match state {
        State::Running(Phase::Before, i) | State::Recovering(Phase::Before, i) => {
            if i + 1 < nb {
                if ok {
                    State::Running(Phase::Before, i + 1)
                } else {
                    State::Recovering(Phase::Before, i + 1)
                }
            } else if ok {
                State::Handling
            } else {
                enter_after(na, false)
            }
        },
        State::Handling => enter_after(na, ok),
        State::Running(Phase::After, j) | State::Recovering(Phase::After, j) => {
            if j + 1 < na {
                if ok {
                    State::Running(Phase::After, j + 1)
                } else {
                    State::Recovering(Phase::After, j + 1)
                }
            } else {
                State::Done(ok)
            }
        },
        State::Done(ended_well) => State::Done(ended_well),
    }
}

/// Every step moves forward: the next state's stage stands behind the
/// present one in the order of the chain, directly behind it unless a
/// failure passes over the handler. No stage is visited twice, and none is
/// asked to catch what it raised itself.
pub proof fn lemma_step_moves_forward(nb: usize, na: usize, state: State, ok: bool)
    requires
        state.wf(nb, na),
        !(state is Done),
    ensures
        ({
            let next = step_spec(nb, na, state, ok);
            let passes_over_handler = !ok && state.slot(nb, na) == nb - 1;
            &&& next.wf(nb, na)
            &&& !passes_over_handler ==> next.slot(nb, na) == state.slot(nb, na) + 1
            &&& passes_over_handler ==> next.slot(nb, na) == state.slot(nb, na) + 2
        }),
{
}

/// A stage is asked to catch exactly after a failure, and called in the
/// ordinary way exactly after a success; the chain ends well exactly after
/// a success.
pub proof fn lemma_step_follows_outcome(nb: usize, na: usize, state: State, ok: bool)
    requires
        state.wf(nb, na),
        !(state is Done),
    ensures
        ({
            let next = step_spec(nb, na, state, ok);
            &&& next is Recovering ==> !ok
            &&& next is Running ==> ok
            &&& next is Handling ==> ok
            &&& next is Done ==> next == State::Done(ok)
        }),
{
}

} // verus!
