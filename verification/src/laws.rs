use vstd::prelude::*;
use vstd::utf8::encode_utf8;
use crate::chain::{Carried, Chain, Event};
use crate::error::IronErrorView;
use crate::handler::Handler;
use crate::machine::{lemma_step_follows_outcome, lemma_step_moves_forward, start_spec, step_spec, Phase, State};
use crate::modifier::Modifier;
use crate::request::RequestView;
use crate::response::{blank, ResponseView};
use crate::status::Status;

verus! {

/// Every call of a chain is made in a state that names a stage, and its
/// place in the log says which: the call at `k` goes to the stage at place
/// `k` in the order of the chain, or to the one behind it once a failure has
/// passed over the handler.
pub proof fn lemma_call_in_its_place<H: Handler>(
    chain: Chain<H>,
    log: Seq<Event>,
    pre: RequestView,
    now: RequestView,
    state: State,
    carried: Carried,
    k: int,
)
    requires
        chain.reaches(log, pre, now, state, carried),
        0 <= k < log.len(),
    ensures
        log[k].state.wf(chain.befores.len(), chain.afters.len()),
        !(log[k].state is Done),
        k < chain.befores.len() ==> log[k].state.slot(chain.befores.len(), chain.afters.len()) == k,
        log[k].state.slot(chain.befores.len(), chain.afters.len()) == k || log[k].state.slot(
            chain.befores.len(),
            chain.afters.len(),
        ) == k + 1,
        k > 0 ==> (log[k].state is Recovering <==> !log[k - 1].output.ok()),
        log[k].input.fits(log[k].state),
    decreases k,
{
    let nb = chain.befores.len();
    let na = chain.afters.len();
    assert(chain.allows(log[k]));
    if k > 0 {
        lemma_call_in_its_place(chain, log, pre, now, state, carried, k - 1);
        assert(chain.linked(log, k - 1));
        lemma_step_moves_forward(nb, na, log[k - 1].state, log[k - 1].output.ok());
        lemma_step_follows_outcome(nb, na, log[k - 1].state, log[k - 1].output.ok());
    }
}

/// The calls of a chain go forward through its stages: a later call goes to
/// a later stage.
pub proof fn lemma_calls_go_forward<H: Handler>(
    chain: Chain<H>,
    log: Seq<Event>,
    pre: RequestView,
    now: RequestView,
    state: State,
    carried: Carried,
    i: int,
    j: int,
)
    requires
        chain.reaches(log, pre, now, state, carried),
        0 <= i < j < log.len(),
    ensures
        log[i].state.slot(chain.befores.len(), chain.afters.len()) < log[j].state.slot(
            chain.befores.len(),
            chain.afters.len(),
        ),
    decreases j - i,
{
    let nb = chain.befores.len();
    let na = chain.afters.len();
    lemma_call_in_its_place(chain, log, pre, now, state, carried, j - 1);
    assert(chain.linked(log, j - 1));
    lemma_step_moves_forward(nb, na, log[j - 1].state, log[j - 1].output.ok());
    if i < j - 1 {
        lemma_calls_go_forward(chain, log, pre, now, state, carried, i, j - 1);
    }
}

/// A whole run has a call, and nothing follows its last one.
pub proof fn lemma_run_ends<H: Handler>(
    chain: Chain<H>,
    log: Seq<Event>,
    pre: RequestView,
    post: RequestView,
    out: Result<ResponseView, IronErrorView>,
)
    requires
        chain.runs(log, pre, post, out),
    ensures
        log.len() > 0,
        log[0].state == start_spec(chain.befores.len(), chain.afters.len()),
        log[0].pre == pre,
        log.last().post == post,
        log.last().output == Carried::of(out),
        forall|k: int|
            0 <= k < log.len() ==> (k == log.len() - 1 <==> step_spec(
                chain.befores.len(),
                chain.afters.len(),
                (#[trigger] log[k]).state,
                log[k].output.ok(),
            ) is Done),
{
    assert forall|k: int| 0 <= k < log.len() implies (k == log.len() - 1 <==> step_spec(
        chain.befores.len(),
        chain.afters.len(),
        (#[trigger] log[k]).state,
        log[k].output.ok(),
    ) is Done) by {
        if k < log.len() - 1 {
            assert(chain.linked(log, k));
            assert(chain.allows(log[k + 1]));
        }
    }
}

/// A run visits every stage before the handler: the call at `k` of its log
/// goes to the stage at `k`, to its `before` or to its `catch`.
pub proof fn lemma_every_before_is_visited<H: Handler>(
    chain: Chain<H>,
    log: Seq<Event>,
    pre: RequestView,
    post: RequestView,
    out: Result<ResponseView, IronErrorView>,
    k: int,
)
    requires
        chain.runs(log, pre, post, out),
        0 <= k < chain.befores.len(),
    ensures
        k < log.len(),
        log[k].state == State::Running(Phase::Before, k as usize) || log[k].state == State::Recovering(
            Phase::Before,
            k as usize,
        ),
    decreases k,
{
    lemma_run_ends(chain, log, pre, post, out);
    if k > 0 {
        lemma_every_before_is_visited(chain, log, pre, post, out, k - 1);
        assert(chain.linked(log, k - 1) || k - 1 == log.len() - 1);
    }
    lemma_call_in_its_place(chain, log, pre, post, State::Done(out is Ok), Carried::of(out), k);
}

/// A chain without middleware does what its handler does, and nothing else.
pub proof fn law_bare_chain_is_its_handler<H: Handler>(
    chain: Chain<H>,
    pre: RequestView,
    post: RequestView,
    out: Result<ResponseView, IronErrorView>,
)
    requires
        chain.befores.len() == 0,
        chain.afters.len() == 0,
    ensures
        chain.handles(pre, post, out) <==> chain.handler.handles(pre, post, out),
{
    if chain.handles(pre, post, out) {
        let log = choose|log: Seq<Event>| chain.runs(log, pre, post, out);
        lemma_run_ends(chain, log, pre, post, out);
        assert(chain.allows(log[0]));
        assert(log.len() == 1);
        assert(log[0].output.as_response() == out);
    }
    if chain.handler.handles(pre, post, out) {
        let ev = Event { state: State::Handling, pre, input: Carried::Nothing, post, output: Carried::of(out) };
        let log = seq![ev];
        assert(Carried::of(out).as_response() == out);
        assert(chain.allows(log[0]));
        assert(chain.runs(log, pre, post, out));
    }
}

/// While every `before` ends well, the stages before the handler are called
/// in the order in which they stand.
proof fn lemma_befores_in_order<H: Handler>(
    chain: Chain<H>,
    log: Seq<Event>,
    pre: RequestView,
    post: RequestView,
    out: Result<ResponseView, IronErrorView>,
    from: int,
    k: int,
)
    requires
        chain.runs(log, pre, post, out),
        0 <= from <= k < chain.befores.len(),
        from < log.len(),
        from > 0 ==> log[from - 1].output.ok(),
        forall|i: int| from <= i < log.len() && (#[trigger] log[i]).state.is_before() ==> log[i].output.ok(),
    ensures
        k < log.len(),
        log[k].state == State::Running(Phase::Before, k as usize),
    decreases k,
{
    lemma_run_ends(chain, log, pre, post, out);
    if k > from {
        lemma_befores_in_order(chain, log, pre, post, out, from, k - 1);
        assert(log[k - 1].state.is_before());
        assert(chain.linked(log, k - 1));
    } else {
        lemma_call_in_its_place(chain, log, pre, post, State::Done(out is Ok), Carried::of(out), k);
    }
}

/// Where every `before` ends well, the stages before the handler are called
/// one by one in the order in which they stand, then the handler is called,
/// and it is called that once only.
pub proof fn law_befores_then_handler<H: Handler>(
    chain: Chain<H>,
    log: Seq<Event>,
    pre: RequestView,
    post: RequestView,
    out: Result<ResponseView, IronErrorView>,
)
    requires
        chain.runs(log, pre, post, out),
        forall|k: int| 0 <= k < log.len() && (#[trigger] log[k]).state.is_before() ==> log[k].output.ok(),
    ensures
        log.len() > chain.befores.len(),
        forall|i: int|
            0 <= i < chain.befores.len() ==> (#[trigger] log[i]).state == State::Running(
                Phase::Before,
                i as usize,
            ),
        log[chain.befores.len() as int].state == State::Handling,
        forall|k: int| 0 <= k < log.len() && (#[trigger] log[k]).state is Handling ==> k == chain.befores.len(),
{
    let nb = chain.befores.len();
    let na = chain.afters.len();
    lemma_run_ends(chain, log, pre, post, out);
    assert forall|i: int| 0 <= i < nb implies i < log.len() && (#[trigger] log[i]).state == State::Running(
        Phase::Before,
        i as usize,
    ) by {
        lemma_befores_in_order(chain, log, pre, post, out, 0, i);
    }
    if nb > 0 {
        lemma_befores_in_order(chain, log, pre, post, out, 0, nb - 1);
        assert(log[nb - 1].state.is_before());
        assert(chain.linked(log, nb - 1));
    }
    assert forall|k: int| 0 <= k < log.len() && (#[trigger] log[k]).state is Handling implies k == nb by {
        if k < nb {
            lemma_calls_go_forward(chain, log, pre, post, State::Done(out is Ok), Carried::of(out), k, nb as int);
        }
        if k > nb {
            lemma_calls_go_forward(chain, log, pre, post, State::Done(out is Ok), Carried::of(out), nb as int, k);
        }
    }
}

/// While every call fails, the stages before the handler are asked to catch
/// in the order in which they stand.
proof fn lemma_catches_in_order<H: Handler>(
    chain: Chain<H>,
    log: Seq<Event>,
    pre: RequestView,
    post: RequestView,
    out: Result<ResponseView, IronErrorView>,
    i: int,
    k: int,
)
    requires
        chain.runs(log, pre, post, out),
        0 <= i < k < chain.befores.len(),
        i < log.len(),
        forall|j: int| i <= j < k && j < log.len() ==> !(#[trigger] log[j]).output.ok(),
    ensures
        k < log.len(),
        log[k].state == State::Recovering(Phase::Before, k as usize),
    decreases k,
{
    lemma_run_ends(chain, log, pre, post, out);
    if k - 1 > i {
        lemma_catches_in_order(chain, log, pre, post, out, i, k - 1);
    }
    lemma_call_in_its_place(chain, log, pre, post, State::Done(out is Ok), Carried::of(out), k - 1);
    assert(chain.linked(log, k - 1));
}

/// Where the stage at `i` before the handler fails and no stage behind it
/// and before the handler recovers, the handler is not called: the stages
/// behind `i` are asked to catch, each in its turn, and the first stage
/// after the handler is asked to catch the failure that the last of them
/// left. Where no stage stands after the handler, that failure is what the
/// chain returns.
pub proof fn law_failure_passes_over_handler<H: Handler>(
    chain: Chain<H>,
    log: Seq<Event>,
    pre: RequestView,
    post: RequestView,
    out: Result<ResponseView, IronErrorView>,
    i: int,
)
    requires
        chain.runs(log, pre, post, out),
        0 <= i < chain.befores.len(),
        forall|k: int| i <= k < chain.befores.len() ==> !(#[trigger] log[k]).output.ok(),
    ensures
        log.len() >= chain.befores.len(),
        forall|k: int| 0 <= k < log.len() ==> !((#[trigger] log[k]).state is Handling),
        forall|k: int|
            i < k < chain.befores.len() ==> (#[trigger] log[k]).state == State::Recovering(
                Phase::Before,
                k as usize,
            ),
        chain.afters.len() > 0 ==> {
            &&& log.len() > chain.befores.len()
            &&& log[chain.befores.len() as int].state == State::Recovering(Phase::After, 0)
            &&& log[chain.befores.len() as int].input == log[chain.befores.len() - 1].output
        },
        chain.afters.len() == 0 ==> {
            &&& log.len() == chain.befores.len()
            &&& Carried::of(out) == log[chain.befores.len() - 1].output
            &&& out is Err
        },
{
    let nb = chain.befores.len();
    let na = chain.afters.len();
    let done = State::Done(out is Ok);
    lemma_run_ends(chain, log, pre, post, out);
    lemma_every_before_is_visited(chain, log, pre, post, out, nb - 1);
    assert forall|k: int| i < k < nb implies k < log.len() && (#[trigger] log[k]).state == State::Recovering(
        Phase::Before,
        k as usize,
    ) by {
        lemma_catches_in_order(chain, log, pre, post, out, i, k);
    }
    lemma_call_in_its_place(chain, log, pre, post, done, Carried::of(out), nb - 1);
    if nb - 1 < log.len() - 1 {
        assert(chain.linked(log, nb - 1));
        lemma_call_in_its_place(chain, log, pre, post, done, Carried::of(out), nb as int);
    }
    assert forall|k: int| 0 <= k < log.len() implies !((#[trigger] log[k]).state is Handling) by {
        lemma_call_in_its_place(chain, log, pre, post, done, Carried::of(out), k);
        if k < nb - 1 {
            lemma_calls_go_forward(chain, log, pre, post, done, Carried::of(out), k, nb - 1);
        }
        if k > nb {
            lemma_calls_go_forward(chain, log, pre, post, done, Carried::of(out), nb as int, k);
        }
    }
}

/// Where the stage at `i` before the handler fails, the stage behind it
/// hands a failure on and the stage behind that one recovers, both were
/// asked to catch, and the stages that follow are called in the ordinary way
/// again: while they end well, each in its turn and then the handler.
pub proof fn law_recovery_resumes<H: Handler>(
    chain: Chain<H>,
    log: Seq<Event>,
    pre: RequestView,
    post: RequestView,
    out: Result<ResponseView, IronErrorView>,
    i: int,
)
    requires
        chain.runs(log, pre, post, out),
        0 <= i,
        i + 2 < chain.befores.len(),
        !log[i].output.ok(),
        !log[i + 1].output.ok(),
        log[i + 2].output.ok(),
        forall|k: int| i + 2 < k < log.len() && (#[trigger] log[k]).state.is_before() ==> log[k].output.ok(),
    ensures
        log[i + 1].state == State::Recovering(Phase::Before, (i + 1) as usize),
        log[i + 2].state == State::Recovering(Phase::Before, (i + 2) as usize),
        log.len() > chain.befores.len(),
        forall|k: int|
            i + 2 < k < chain.befores.len() ==> (#[trigger] log[k]).state == State::Running(
                Phase::Before,
                k as usize,
            ),
        log[chain.befores.len() as int].state == State::Handling,
{
    let nb = chain.befores.len();
    let done = State::Done(out is Ok);
    lemma_run_ends(chain, log, pre, post, out);
    lemma_every_before_is_visited(chain, log, pre, post, out, i + 2);
    lemma_call_in_its_place(chain, log, pre, post, done, Carried::of(out), i);
    lemma_call_in_its_place(chain, log, pre, post, done, Carried::of(out), i + 1);
    lemma_call_in_its_place(chain, log, pre, post, done, Carried::of(out), i + 2);
    assert(chain.linked(log, i));
    assert(chain.linked(log, i + 1));
    assert(chain.linked(log, i + 2));
    if i + 3 < nb {
        assert forall|k: int| i + 2 < k < nb implies k < log.len() && (#[trigger] log[k]).state
            == State::Running(Phase::Before, k as usize) by {
            lemma_befores_in_order(chain, log, pre, post, out, i + 3, k);
        }
        lemma_befores_in_order(chain, log, pre, post, out, i + 3, nb - 1);
        assert(log[nb - 1].state.is_before());
        assert(chain.linked(log, nb - 1));
    }
}

/// No stage is asked to catch its own failure: a call of `catch` takes the
/// failure that the call before it left, and that call, like every call
/// before it, went to an earlier stage.
pub proof fn law_catch_takes_an_earlier_failure<H: Handler>(
    chain: Chain<H>,
    log: Seq<Event>,
    pre: RequestView,
    post: RequestView,
    out: Result<ResponseView, IronErrorView>,
    k: int,
)
    requires
        chain.runs(log, pre, post, out),
        0 <= k < log.len(),
        log[k].state is Recovering,
    ensures
        k > 0,
        log[k - 1].output is Failure,
        log[k].input == log[k - 1].output,
        log[k].pre == log[k - 1].post,
        forall|j: int|
            0 <= j < k ==> (#[trigger] log[j]).state.slot(chain.befores.len(), chain.afters.len())
                < log[k].state.slot(chain.befores.len(), chain.afters.len()),
{
    let done = State::Done(out is Ok);
    lemma_call_in_its_place(chain, log, pre, post, done, Carried::of(out), k);
    assert(k > 0);
    assert(chain.linked(log, k - 1));
    assert forall|j: int| 0 <= j < k implies (#[trigger] log[j]).state.slot(
        chain.befores.len(),
        chain.afters.len(),
    ) < log[k].state.slot(chain.befores.len(), chain.afters.len()) by {
        lemma_calls_go_forward(chain, log, pre, post, done, Carried::of(out), j, k);
    }
}

/// While every call ends well, the stages after the handler are called in
/// the order in which they stand.
proof fn lemma_afters_in_order<H: Handler>(
    chain: Chain<H>,
    log: Seq<Event>,
    pre: RequestView,
    post: RequestView,
    out: Result<ResponseView, IronErrorView>,
    j: int,
)
    requires
        chain.runs(log, pre, post, out),
        forall|k: int| 0 <= k < log.len() ==> (#[trigger] log[k]).output.ok(),
        0 <= j < chain.afters.len(),
    ensures
        chain.befores.len() + 1 + j < log.len(),
        log[chain.befores.len() + 1 + j].state == State::Running(Phase::After, j as usize),
        log[chain.befores.len() + 1 + j].input == log[chain.befores.len() + j].output,
        log[chain.befores.len() + 1 + j].input is Response,
    decreases j,
{
    let nb = chain.befores.len();
    lemma_run_ends(chain, log, pre, post, out);
    law_befores_then_handler(chain, log, pre, post, out);
    if j > 0 {
        lemma_afters_in_order(chain, log, pre, post, out, j - 1);
    }
    assert(chain.linked(log, nb + j));
    assert(chain.allows(log[nb + 1 + j]));
}

/// Where every call ends well, every stage is called once, in the order in
/// which the stages stand: those before the handler, the handler, those
/// after it. Each stage after the handler takes the response that the call
/// before it returned, and the chain returns the response of the last call.
pub proof fn law_success_runs_every_stage<H: Handler>(
    chain: Chain<H>,
    log: Seq<Event>,
    pre: RequestView,
    post: RequestView,
    out: Result<ResponseView, IronErrorView>,
)
    requires
        chain.runs(log, pre, post, out),
        forall|k: int| 0 <= k < log.len() ==> (#[trigger] log[k]).output.ok(),
    ensures
        log.len() == chain.befores.len() + 1 + chain.afters.len(),
        forall|i: int|
            0 <= i < chain.befores.len() ==> (#[trigger] log[i]).state == State::Running(
                Phase::Before,
                i as usize,
            ),
        log[chain.befores.len() as int].state == State::Handling,
        forall|j: int|
            0 <= j < chain.afters.len() ==> {
                &&& (#[trigger] log[chain.befores.len() + 1 + j]).state == State::Running(
                    Phase::After,
                    j as usize,
                )
                &&& log[chain.befores.len() + 1 + j].input == log[chain.befores.len() + j].output
            },
        log.last().output is Response,
        out == Ok::<ResponseView, IronErrorView>(log.last().output->Response_0),
{
    let nb = chain.befores.len();
    let na = chain.afters.len();
    let done = State::Done(out is Ok);
    lemma_run_ends(chain, log, pre, post, out);
    law_befores_then_handler(chain, log, pre, post, out);
    assert forall|j: int| 0 <= j < na implies {
        &&& nb + 1 + j < log.len()
        &&& (#[trigger] log[nb + 1 + j]).state == State::Running(Phase::After, j as usize)
        &&& log[nb + 1 + j].input == log[nb + j].output
    } by {
        lemma_afters_in_order(chain, log, pre, post, out, j);
    }
    lemma_call_in_its_place(chain, log, pre, post, done, Carried::of(out), log.len() - 1);
    assert(chain.allows(log.last()));
    if na > 0 {
        lemma_afters_in_order(chain, log, pre, post, out, na - 1);
        if log.len() > nb + 1 + na {
            assert(chain.linked(log, nb + na));
        }
    } else {
        if log.len() > nb + 1 {
            assert(chain.linked(log, nb as int));
        }
    }
}

/// A stage that lets every failure go on as it came changes nothing when it
/// is asked to catch: the request is left alone, and the next call takes the
/// failure that this one took.
pub proof fn law_handed_on_failure_goes_on<H: Handler>(
    chain: Chain<H>,
    log: Seq<Event>,
    pre: RequestView,
    post: RequestView,
    out: Result<ResponseView, IronErrorView>,
    k: int,
)
    requires
        chain.runs(log, pre, post, out),
        0 <= k < log.len(),
        chain.hands_on(log[k].state),
    ensures
        log[k].state is Recovering,
        log[k].post == log[k].pre,
        log[k].output == log[k].input,
        k + 1 < log.len() ==> log[k + 1].input == log[k].input && log[k + 1].pre == log[k].pre,
{
    assert(chain.allows(log[k]));
    if k + 1 < log.len() {
        assert(chain.linked(log, k));
    }
}

/// Two runs of a chain whose calls have one outcome each agree as far as
/// both go.
proof fn lemma_runs_agree<H: Handler>(
    chain: Chain<H>,
    first: Seq<Event>,
    second: Seq<Event>,
    pre: RequestView,
    post1: RequestView,
    out1: Result<ResponseView, IronErrorView>,
    post2: RequestView,
    out2: Result<ResponseView, IronErrorView>,
    k: int,
)
    requires
        chain.single_valued(),
        chain.runs(first, pre, post1, out1),
        chain.runs(second, pre, post2, out2),
        0 <= k < first.len(),
        k < second.len(),
    ensures
        first[k] == second[k],
    decreases k,
{
    lemma_run_ends(chain, first, pre, post1, out1);
    lemma_run_ends(chain, second, pre, post2, out2);
    assert(chain.allows(first[k]) && chain.allows(second[k]));
    if k > 0 {
        lemma_runs_agree(chain, first, second, pre, post1, out1, post2, out2, k - 1);
        assert(chain.linked(first, k - 1));
        assert(chain.linked(second, k - 1));
    } else {
        assert(first[0].input == Carried::Nothing);
        assert(second[0].input == Carried::Nothing);
    }
}

/// Where every call of a chain has one outcome only, so has the chain: on
/// requests that hold the same, it makes the same calls in the same order,
/// leaves the requests holding the same, and returns the same.
pub proof fn law_equal_requests_equal_results<H: Handler>(
    chain: Chain<H>,
    first: Seq<Event>,
    second: Seq<Event>,
    pre: RequestView,
    post1: RequestView,
    out1: Result<ResponseView, IronErrorView>,
    post2: RequestView,
    out2: Result<ResponseView, IronErrorView>,
)
    requires
        chain.single_valued(),
        chain.runs(first, pre, post1, out1),
        chain.runs(second, pre, post2, out2),
    ensures
        first == second,
        post1 == post2,
        out1 == out2,
{
    lemma_run_ends(chain, first, pre, post1, out1);
    lemma_run_ends(chain, second, pre, post2, out2);
    if first.len() <= second.len() {
        lemma_runs_agree(chain, first, second, pre, post1, out1, post2, out2, first.len() - 1);
    } else {
        lemma_runs_agree(chain, first, second, pre, post1, out1, post2, out2, second.len() - 1);
    }
    assert(first.len() == second.len());
    assert forall|k: int| 0 <= k < first.len() implies first[k] == second[k] by {
        lemma_runs_agree(chain, first, second, pre, post1, out1, post2, out2, k);
    }
    assert(first =~= second);
}

/// What a status and a body make of the blank response is read back from
/// it: that status, no header, and the bytes of that body. This is the
/// response of `Response::with((status, body))`, and the response that
/// `IronError::new(e, (status, body))` holds, whatever the cause `e`.
pub proof fn law_status_and_body_are_read_back(status: Status, body: &str)
    ensures
        forall|res: ResponseView|
            (status, body).modifies(blank(), res) <==> res == (ResponseView {
                status,
                headers: Seq::<(Seq<char>, Seq<char>)>::empty(),
                body: encode_utf8(body@),
            }),
{
    assert forall|res: ResponseView|
        res == (ResponseView {
            status,
            headers: Seq::<(Seq<char>, Seq<char>)>::empty(),
            body: encode_utf8(body@),
        }) implies (status, body).modifies(blank(), res) by {
        let mid = ResponseView { status, ..blank() };
        let pair = (status, body);
        assert(pair.0.modifies(blank(), mid) && pair.1.modifies(mid, res));
    }
}

} // verus!
