use vstd::prelude::*;
use crate::error::{IronError, IronErrorView, IronResult};
use crate::handler::result_view;
use crate::request::{Request, RequestView};
use crate::response::{Response, ResponseView};

verus! {

/// A failure is handed on as it came: the request is left alone and the
/// failure returned is the one received.
pub open spec fn handed_on<T>(
    pre: RequestView,
    err: IronErrorView,
    post: RequestView,
    out: Result<T, IronErrorView>,
) -> bool {
    post == pre && out == Err::<T, IronErrorView>(err)
}

/// A stage that runs before the handler. It sees the request only: no
/// response exists yet.
pub trait BeforeMiddleware: Send + Sync + 'static {
    /// What `before` may do: called on a request that holds `pre`, it may
    /// leave the request holding `post` and return `out`.
    open spec fn runs_before(&self, pre: RequestView, post: RequestView, out: Result<(), IronErrorView>) -> bool {
        true
    }

    /// What `catch` may do: called with `err` on a request that holds `pre`,
    /// it may leave the request holding `post` and return `out`. A stage that
    /// lets every failure go on as it came says `handed_on` here.
    open spec fn catches(
        &self,
        pre: RequestView,
        err: IronErrorView,
        post: RequestView,
        out: Result<(), IronErrorView>,
    ) -> bool {
        true
    }

    /// Called when every stage so far has ended well.
    fn before(&self, req: &mut Request) -> (r: IronResult<()>)
        ensures
            self.runs_before(old(req)@, final(req)@, result_view(r)),
    ;

    /// Called when an earlier stage has failed and nothing has recovered
    /// since. To return `Ok` is to recover; to return `Err` is to let a
    /// failure, this one or another, go on to the next stage. A stage that
    /// does not care returns `Err(err)`, as the stage that `BeforeFn` makes
    /// of a function does.
    fn catch(&self, req: &mut Request, err: IronError) -> (r: IronResult<()>)
        ensures
            self.catches(old(req)@, err@, final(req)@, result_view(r)),
    ;
}

/// A stage that runs after the handler. It takes the response and returns
/// it, changed or not, or another in its place.
pub trait AfterMiddleware: Send + Sync + 'static {
    /// What `after` may do: called with `res` on a request that holds `pre`,
    /// it may leave the request holding `post` and return `out`.
    open spec fn runs_after(
        &self,
        pre: RequestView,
        res: ResponseView,
        post: RequestView,
        out: Result<ResponseView, IronErrorView>,
    ) -> bool {
        true
    }

    /// What `catch` may do: called with `err` on a request that holds `pre`,
    /// it may leave the request holding `post` and return `out`. A stage that
    /// lets every failure go on as it came says `handed_on` here.
    open spec fn catches(
        &self,
        pre: RequestView,
        err: IronErrorView,
        post: RequestView,
        out: Result<ResponseView, IronErrorView>,
    ) -> bool {
        true
    }

    /// Called when every stage so far has ended well, or a failure has been
    /// recovered from.
    fn after(&self, req: &mut Request, res: Response) -> (r: IronResult<Response>)
        ensures
            self.runs_after(old(req)@, res@, final(req)@, result_view(r)),
    ;

    /// Called when an earlier stage has failed and nothing has recovered
    /// since. To return `Ok` is to recover with that response; to return
    /// `Err` is to let a failure go on to the next stage. A stage that does
    /// not care returns `Err(err)`, as the stage that `AfterFn` makes of a
    /// function does.
    fn catch(&self, req: &mut Request, err: IronError) -> (r: IronResult<Response>)
        ensures
            self.catches(old(req)@, err@, final(req)@, result_view(r)),
    ;
}

/// A function as a stage before the handler, for a stage that does not care
/// for failures: `before` calls the function, which must accept every
/// request, and `catch` lets every failure go on as it came.
pub struct BeforeFn<F: Send + Sync + 'static + Fn(&mut Request) -> IronResult<()>> {
    f: F,
}

impl<F: Send + Sync + 'static + Fn(&mut Request) -> IronResult<()>> BeforeFn<F> {
    /// The function can be called on every request.
    #[verifier::type_invariant]
    spec fn total(self) -> bool {
        forall|req: &mut Request| call_requires(self.f, (req,))
    }

    /// The function that `before` calls.
    pub closed spec fn function(self) -> F {
        self.f
    }

    /// The stage that calls `f`.
    pub fn new(f: F) -> (stage: Self)
        requires
            forall|req: &mut Request| call_requires(f, (req,)),
        ensures
            stage.function() == f,
    {
        BeforeFn { f }
    }
}

impl<F: Send + Sync + 'static + Fn(&mut Request) -> IronResult<()>> BeforeMiddleware for BeforeFn<F> {
    open spec fn runs_before(&self, pre: RequestView, post: RequestView, out: Result<(), IronErrorView>) -> bool {
        exists|req: &mut Request, r: IronResult<()>|
            (*req)@ == pre && result_view(r) == out && call_ensures(self.function(), (req,), r)
    }

    open spec fn catches(
        &self,
        pre: RequestView,
        err: IronErrorView,
        post: RequestView,
        out: Result<(), IronErrorView>,
    ) -> bool {
        handed_on(pre, err, post, out)
    }

    fn before(&self, req: &mut Request) -> (r: IronResult<()>)
        ensures
            exists|given: &mut Request|
                {
                    &&& *given == *old(req)
                    &&& *final(given) == *final(req)
                    &&& call_ensures(self.function(), (given,), r)
                },
    {
        proof {
            use_type_invariant(self);
        }
        let r = (self.f)(req);
        assert(self.function() == self.f);
        r
    }

    fn catch(&self, req: &mut Request, err: IronError) -> (r: IronResult<()>)
        ensures
            *final(req) == *old(req),
            r == Err::<(), IronError>(err),
    {
        Err(err)
    }
}

/// A function as a stage after the handler, for a stage that does not care
/// for failures: `after` calls the function, which must accept every request
/// and response, and `catch` lets every failure go on as it came.
pub struct AfterFn<F: Send + Sync + 'static + Fn(&mut Request, Response) -> IronResult<Response>> {
    f: F,
}

impl<F: Send + Sync + 'static + Fn(&mut Request, Response) -> IronResult<Response>> AfterFn<F> {
    /// The function can be called on every request and response.
    #[verifier::type_invariant]
    spec fn total(self) -> bool {
        forall|req: &mut Request, res: Response| call_requires(self.f, (req, res))
    }

    /// The function that `after` calls.
    pub closed spec fn function(self) -> F {
        self.f
    }

    /// The stage that calls `f`.
    pub fn new(f: F) -> (stage: Self)
        requires
            forall|req: &mut Request, res: Response| call_requires(f, (req, res)),
        ensures
            stage.function() == f,
    {
        AfterFn { f }
    }
}

impl<F: Send + Sync + 'static + Fn(&mut Request, Response) -> IronResult<Response>> AfterMiddleware for AfterFn<F> {
    open spec fn runs_after(
        &self,
        pre: RequestView,
        res: ResponseView,
        post: RequestView,
        out: Result<ResponseView, IronErrorView>,
    ) -> bool {
        exists|req: &mut Request, taken: Response, r: IronResult<Response>|
            (*req)@ == pre && taken@ == res && result_view(r) == out && call_ensures(
                self.function(),
                (req, taken),
                r,
            )
    }

    open spec fn catches(
        &self,
        pre: RequestView,
        err: IronErrorView,
        post: RequestView,
        out: Result<ResponseView, IronErrorView>,
    ) -> bool {
        handed_on(pre, err, post, out)
    }

    fn after(&self, req: &mut Request, res: Response) -> (r: IronResult<Response>)
        ensures
            exists|given: &mut Request|
                {
                    &&& *given == *old(req)
                    &&& *final(given) == *final(req)
                    &&& call_ensures(self.function(), (given, res), r)
                },
    {
        proof {
            use_type_invariant(self);
        }
        let r = (self.f)(req, res);
        assert(self.function() == self.f);
        r
    }

    fn catch(&self, req: &mut Request, err: IronError) -> (r: IronResult<Response>)
        ensures
            *final(req) == *old(req),
            r == Err::<Response, IronError>(err),
    {
        Err(err)
    }
}

} // verus!
