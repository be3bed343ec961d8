use vstd::prelude::*;
use vstd::pervasive::unreached;
use crate::error::{IronError, IronErrorView, IronResult};
use crate::handler::{result_view, Handler};
use crate::machine::{lemma_step_moves_forward, start, start_spec, step, step_spec, Phase, State};
use crate::middleware::{handed_on, AfterMiddleware, BeforeMiddleware};
use crate::request::{Request, RequestView};
use crate::response::{Response, ResponseView};

verus! {

/// What one call of a chain leaves for the next, as mathematical values.
pub enum Carried {
    /// A stage before the handler ended well, or none has run yet: there is
    /// neither a response nor a failure.
    Nothing,
    /// The handler or a stage after it ended well with this response, or a
    /// stage after the handler recovered with it.
    Response(ResponseView),
    /// A stage failed with this failure, or handed it on.
    Failure(IronErrorView),
}

impl Carried {
    /// The call that left this ended well.
    pub open spec fn ok(self) -> bool {
        !(self is Failure)
    }

    /// This, read as what a stage before the handler returned.
    pub open spec fn as_unit(self) -> Result<(), IronErrorView> {
        match self {
            Carried::Failure(err) => Err(err),
            _ => Ok(()),
        }
    }

    /// This, read as what the handler or a stage after it returned.
    pub open spec fn as_response(self) -> Result<ResponseView, IronErrorView> {
        match self {
            Carried::Failure(err) => Err(err),
            Carried::Response(res) => Ok(res),
            Carried::Nothing => arbitrary(),
        }
    }

    /// What a chain that returned `out` was left with by its last call.
    pub open spec fn of(out: Result<ResponseView, IronErrorView>) -> Carried {
        match out {
            Ok(res) => Carried::Response(res),
            Err(err) => Carried::Failure(err),
        }
    }

    /// This is what a call in `state` takes: a stage called in the ordinary
    /// way after the handler takes a response, a stage asked to catch takes a
    /// failure, and a chain that is done holds what it returns.
    pub open spec fn fits(self, state: State) -> bool {
        match state {
            State::Running(Phase::Before, _) => self is Nothing,
            State::Handling => self is Nothing,
            State::Running(Phase::After, _) => self is Response,
            State::Recovering(_, _) => self is Failure,
            State::Done(ended_well) => if ended_well {
                self is Response
            } else {
                self is Failure
            },
        }
    }
}

/// One call that a chain made: the state it was made in, what the request
/// held before and after, what the call took and what it left.
pub struct Event {
    pub state: State,
    pub pre: RequestView,
    pub input: Carried,
    pub post: RequestView,
    pub output: Carried,
}

/// What one call of a chain leaves for the next.
enum Carry {
    Nothing,
    Response(Response),
    Failure(IronError),
}

impl View for Carry {
    type V = Carried;

    closed spec fn view(&self) -> Carried {
        match self {
            Carry::Nothing => Carried::Nothing,
            Carry::Response(res) => Carried::Response(res@),
            Carry::Failure(err) => Carried::Failure(err@),
        }
    }
}

impl Carry {
    fn of_unit(r: IronResult<()>) -> (c: Carry)
        ensures
            !(c@ is Response),
            c@.as_unit() == result_view(r),
    {
        match r {
            Ok(_) => Carry::Nothing,
            Err(err) => Carry::Failure(err),
        }
    }

    fn of_response(r: IronResult<Response>) -> (c: Carry)
        ensures
            !(c@ is Nothing),
            c@.as_response() == result_view(r),
            c@ == Carried::of(result_view(r)),
    {
        match r {
            Ok(res) => Carry::Response(res),
            Err(err) => Carry::Failure(err),
        }
    }

    fn ok(&self) -> (b: bool)
        ensures
            b == self@.ok(),
    {
        match self {
            Carry::Failure(_) => false,
            _ => true,
        }
    }
}

/// A handler made of stages: a list of middleware that runs before the
/// handler proper, that handler, and a list that runs after it.
///
/// The stages are called in the order in which they stand. Once a stage has
/// failed, those behind it are asked to catch the failure, each in its turn,
/// until one recovers; the handler is passed over while a failure is on its
/// way.
pub struct Chain<H: Handler> {
    pub befores: Vec<Box<dyn BeforeMiddleware>>,
    pub handler: H,
    pub afters: Vec<Box<dyn AfterMiddleware>>,
}

impl<H: Handler> Chain<H> {
    /// The chain of these stages.
    pub fn new(
        befores: Vec<Box<dyn BeforeMiddleware>>,
        handler: H,
        afters: Vec<Box<dyn AfterMiddleware>>,
    ) -> (chain: Chain<H>)
        ensures
            chain.befores == befores,
            chain.handler == handler,
            chain.afters == afters,
    {
        Chain { befores, handler, afters }
    }

    /// The call that `ev` records is one that the stage it names may make.
    pub open spec fn allows(&self, ev: Event) -> bool {
        match ev.state {
            State::Running(Phase::Before, i) => {
                &&& i < self.befores.len()
                &&& ev.input is Nothing
                &&& !(ev.output is Response)
                &&& self.befores[i as int].runs_before(ev.pre, ev.post, ev.output.as_unit())
            },
            State::Recovering(Phase::Before, i) => {
                &&& i < self.befores.len()
                &&& ev.input is Failure
                &&& !(ev.output is Response)
                &&& self.befores[i as int].catches(
                    ev.pre,
                    ev.input->Failure_0,
                    ev.post,
                    ev.output.as_unit(),
                )
            },
            State::Handling => {
                &&& ev.input is Nothing
                &&& !(ev.output is Nothing)
                &&& self.handler.handles(ev.pre, ev.post, ev.output.as_response())
            },
            State::Running(Phase::After, j) => {
                &&& j < self.afters.len()
                &&& ev.input is Response
                &&& !(ev.output is Nothing)
                &&& self.afters[j as int].runs_after(
                    ev.pre,
                    ev.input->Response_0,
                    ev.post,
                    ev.output.as_response(),
                )
            },
            State::Recovering(Phase::After, j) => {
                &&& j < self.afters.len()
                &&& ev.input is Failure
                &&& !(ev.output is Nothing)
                &&& self.afters[j as int].catches(
                    ev.pre,
                    ev.input->Failure_0,
                    ev.post,
                    ev.output.as_response(),
                )
            },
            State::Done(_) => false,
        }
    }

    /// Every call that this chain may make has one outcome only: the state,
    /// what the request holds and what the call takes fix what the request
    /// holds afterwards and what the call leaves. This is so where each
    /// stage's relations allow one outcome for each input.
    pub open spec fn single_valued(&self) -> bool {
        forall|a: Event, b: Event|
            #![trigger self.allows(a), self.allows(b)]
            self.allows(a) && self.allows(b) && a.state == b.state && a.pre == b.pre && a.input
                == b.input ==> a == b
    }

    /// The stage that `state` asks to catch lets every failure go on as it
    /// came.
    pub open spec fn hands_on(&self, state: State) -> bool {
        match state {
            State::Recovering(Phase::Before, i) => forall|
                pre: RequestView,
                err: IronErrorView,
                post: RequestView,
                out: Result<(), IronErrorView>,
            | #[trigger]
                self.befores[i as int].catches(pre, err, post, out) ==> handed_on(pre, err, post, out),
            State::Recovering(Phase::After, j) => forall|
                pre: RequestView,
                err: IronErrorView,
                post: RequestView,
                out: Result<ResponseView, IronErrorView>,
            | #[trigger]
                self.afters[j as int].catches(pre, err, post, out) ==> handed_on(pre, err, post, out),
            _ => false,
        }
    }

    /// The call at `k + 1` of `log` takes up where the call at `k` left off:
    /// it is made in the state that follows, on the request as it was left,
    /// and takes what was left for it.
    pub open spec fn linked(&self, log: Seq<Event>, k: int) -> bool {
        &&& log[k + 1].state == step_spec(
            self.befores.len(),
            self.afters.len(),
            log[k].state,
            log[k].output.ok(),
        )
        &&& log[k + 1].pre == log[k].post
        &&& log[k + 1].input == log[k].output
    }

    /// `log` records calls that this chain may make one after the other,
    /// from its start on a request that holds `pre`, after which the request
    /// holds `now`, the chain stands in `state` and `carried` is left.
    pub open spec fn reaches(
        &self,
        log: Seq<Event>,
        pre: RequestView,
        now: RequestView,
        state: State,
        carried: Carried,
    ) -> bool {
        let nb = self.befores.len();
        let na = self.afters.len();
        &&& forall|k: int| 0 <= k < log.len() ==> self.allows(#[trigger] log[k])
        &&& forall|k: int| 0 <= k < log.len() - 1 ==> #[trigger] self.linked(log, k)
        &&& if log.len() == 0 {
            &&& state == start_spec(nb, na)
            &&& now == pre
            &&& carried is Nothing
        } else {
            &&& log[0].state == start_spec(nb, na)
            &&& log[0].pre == pre
            &&& log[0].input is Nothing
            &&& state == step_spec(nb, na, log.last().state, log.last().output.ok())
            &&& now == log.last().post
            &&& carried == log.last().output
        }
    }

    /// `log` records a whole run of this chain: the calls that it made, in
    /// their order, on a request that held `pre` at first and `post` at the
    /// end, with `out` as the result.
    pub open spec fn runs(
        &self,
        log: Seq<Event>,
        pre: RequestView,
        post: RequestView,
        out: Result<ResponseView, IronErrorView>,
    ) -> bool {
        self.reaches(log, pre, post, State::Done(out is Ok), Carried::of(out))
    }

    /// Makes the call that `state` stands for.
    fn call(&self, state: State, input: Carry, req: &mut Request) -> (output: Carry)
        requires
            state.wf(self.befores.len(), self.afters.len()),
            !(state is Done),
            input@.fits(state),
        ensures
            self.allows(
                (Event { state, pre: old(req)@, input: input@, post: final(req)@, output: output@ }),
            ),
    {
        match state {
            State::Running(Phase::Before, i) => Carry::of_unit(self.befores[i].before(req)),
            State::Recovering(Phase::Before, i) => match input {
                Carry::Failure(err) => Carry::of_unit(self.befores[i].catch(req, err)),
                _ => unreached(),
            },
            State::Handling => Carry::of_response(self.handler.handle(req)),
            State::Running(Phase::After, j) => match input {
                Carry::Response(res) => Carry::of_response(self.afters[j].after(req, res)),
                _ => unreached(),
            },
            State::Recovering(Phase::After, j) => match input {
                Carry::Failure(err) => Carry::of_response(self.afters[j].catch(req, err)),
                _ => unreached(),
            },
            State::Done(_) => unreached(),
        }
    }

    /// Runs the chain and says which calls it made.
    fn run(&self, req: &mut Request) -> (r: (IronResult<Response>, Ghost<Seq<Event>>))
        ensures
            self.runs(r.1@, old(req)@, final(req)@, result_view(r.0)),
    {
        let nb = self.befores.len();
        let na = self.afters.len();
        let ghost pre = req@;
        let ghost mut log = Seq::<Event>::empty();
        let mut state = start(nb, na);
        let mut carry = Carry::Nothing;
        while !state.is_done()
            invariant
                nb == self.befores.len(),
                na == self.afters.len(),
                state.wf(nb, na),
                carry@.fits(state),
                self.reaches(log, pre, req@, state, carry@),
            decreases nb + 1 + na - state.slot(nb, na),
        {
            let ghost before = req@;
            let ghost input = carry@;
            let ghost earlier = log;
            let output = self.call(state, carry, req);
            let next = step(nb, na, state, output.ok());
            proof {
                let ev = Event { state, pre: before, input, post: req@, output: output@ };
                log = earlier.push(ev);
                lemma_step_moves_forward(nb, na, state, output@.ok());
                assert forall|k: int| 0 <= k < log.len() implies self.allows(#[trigger] log[k]) by {
                    if k < earlier.len() {
                        assert(log[k] == earlier[k]);
                    }
                }
                assert forall|k: int| 0 <= k < log.len() - 1 implies #[trigger] self.linked(log, k) by {
                    if k < earlier.len() - 1 {
                        assert(self.linked(earlier, k));
                        assert(log[k] == earlier[k]);
                        assert(log[k + 1] == earlier[k + 1]);
                    }
                }
            }
            state = next;
            carry = output;
        }
        match carry {
            Carry::Response(res) => (Ok(res), Ghost(log)),
            Carry::Failure(err) => (Err(err), Ghost(log)),
            Carry::Nothing => unreached(),
        }
    }
}

/// A chain is a handler: it can stand wherever a handler is asked for,
/// inside another chain too.
impl<H: Handler> Handler for Chain<H> {
    /// A chain may do what some run of it does.
    open spec fn handles(
        &self,
        pre: RequestView,
        post: RequestView,
        out: Result<ResponseView, IronErrorView>,
    ) -> bool {
        exists|log: Seq<Event>| self.runs(log, pre, post, out)
    }

    fn handle(&self, req: &mut Request) -> (r: IronResult<Response>) {
        let (r, _) = self.run(req);
        r
    }
}

} // verus!
