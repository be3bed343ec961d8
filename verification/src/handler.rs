use vstd::prelude::*;
use crate::chain::Chain;
use crate::error::{IronErrorView, IronResult};
use crate::middleware::{AfterMiddleware, BeforeMiddleware};
use crate::request::{Request, RequestView};
use crate::response::{Response, ResponseView};

verus! {

/// What a stage returned, as mathematical values: its value or its failure,
/// each by its view.
pub open spec fn result_view<T: View>(r: IronResult<T>) -> Result<T::V, IronErrorView> {
    match r {
        Ok(value) => Ok(value@),
        Err(err) => Err(err@),
    }
}

/// A handler makes a response from a request, or fails with an `IronError`,
/// which holds the response to fall back on.
///
/// Chains, boxed handlers and functions in an `FnHandler` are all handlers,
/// so one can stand where another is asked for.
pub trait Handler: Send + Sync + 'static {
    /// What the handler may do: called on a request that holds `pre`, it may
    /// leave the request holding `post` and return `out`.
    open spec fn handles(
        &self,
        pre: RequestView,
        post: RequestView,
        out: Result<ResponseView, IronErrorView>,
    ) -> bool {
        true
    }

    /// Makes a response from the request, which it may change.
    fn handle(&self, req: &mut Request) -> (r: IronResult<Response>)
        ensures
            self.handles(old(req)@, final(req)@, result_view(r)),
    ;
}

/// A boxed handler does what the handler in the box does.
impl Handler for Box<dyn Handler> {
    open spec fn handles(
        &self,
        pre: RequestView,
        post: RequestView,
        out: Result<ResponseView, IronErrorView>,
    ) -> bool {
        (**self).handles(pre, post, out)
    }

    fn handle(&self, req: &mut Request) -> (r: IronResult<Response>) {
        (**self).handle(req)
    }
}

/// A function as a handler. The function takes the request and returns what
/// a handler returns; it must accept every request.
pub struct FnHandler<F: Send + Sync + 'static + Fn(&mut Request) -> IronResult<Response>> {
    f: F,
}

impl<F: Send + Sync + 'static + Fn(&mut Request) -> IronResult<Response>> FnHandler<F> {
    /// The function can be called on every request.
    #[verifier::type_invariant]
    spec fn total(self) -> bool {
        forall|req: &mut Request| call_requires(self.f, (req,))
    }

    /// The function that handles.
    pub closed spec fn function(self) -> F {
        self.f
    }

    /// The handler that calls `f`.
    pub fn new(f: F) -> (handler: Self)
        requires
            forall|req: &mut Request| call_requires(f, (req,)),
        ensures
            handler.function() == f,
    {
        FnHandler { f }
    }
}

/// A function handles by being called: what it may return for a request is
/// what the handler may return for it. What the request holds afterwards is
/// said of `handle` itself: the handler leaves the request as the function
/// left it.
impl<F: Send + Sync + 'static + Fn(&mut Request) -> IronResult<Response>> Handler for FnHandler<F> {
    open spec fn handles(
        &self,
        pre: RequestView,
        post: RequestView,
        out: Result<ResponseView, IronErrorView>,
    ) -> bool {
        exists|req: &mut Request, r: IronResult<Response>|
            (*req)@ == pre && result_view(r) == out && call_ensures(self.function(), (req,), r)
    }

    fn handle(&self, req: &mut Request) -> (r: IronResult<Response>)
        ensures
            exists|given: &mut Request|
                {
                    &&& *given == *old(req)
                    &&& *final(given) == *final(req)
                    &&& call_ensures(self.function(), (given,), r)
                },
    {
        proof {
            use_type_invariant(self);
        }
        let r = (self.f)(req);
        assert(self.function() == self.f);
        r
    }
}

/// The response to send for a request: the one that `handler` made, or,
/// where it failed, the one that the failure holds. Either way there is a
/// response.
pub fn respond<H: Handler>(handler: &H, req: &mut Request) -> (res: Response)
    ensures
        exists|out: Result<ResponseView, IronErrorView>|
            {
                &&& handler.handles(old(req)@, final(req)@, out)
                &&& res@ == match out {
                    Ok(made) => made,
                    Err(err) => err.response,
                }
            },
{
    let ghost pre = req@;
    let r = handler.handle(req);
    assert(handler.handles(pre, req@, result_view(r)));
    match r {
        Ok(made) => made,
        Err(err) => err.response,
    }
}

/// What can be made into a handler: a handler itself, or a handler with the
/// middleware to run before it, after it, or both.
pub trait IntoHandler: Sized {
    type Output: Handler;

    /// `h` is the handler that this becomes.
    open spec fn becomes(self, h: Self::Output) -> bool {
        true
    }

    /// Makes this into a handler.
    fn into_handler(self) -> (h: Self::Output)
        ensures
            self.becomes(h),
    ;
}

/// A handler is taken as it is.
impl<H: Handler> IntoHandler for H {
    type Output = H;

    open spec fn becomes(self, h: H) -> bool {
        h == self
    }

    fn into_handler(self) -> (h: H) {
        self
    }
}

/// Middleware to run before, what becomes the handler, and middleware to run
/// after it become the chain of the three.
impl<I: IntoHandler> IntoHandler for (Vec<Box<dyn BeforeMiddleware>>, I, Vec<Box<dyn AfterMiddleware>>) {
    type Output = Chain<I::Output>;

    open spec fn becomes(self, h: Chain<I::Output>) -> bool {
        &&& h.befores == self.0
        &&& self.1.becomes(h.handler)
        &&& h.afters == self.2
    }

    fn into_handler(self) -> (h: Chain<I::Output>) {
        Chain::new(self.0, self.1.into_handler(), self.2)
    }
}

/// Middleware to run before and what becomes the handler become a chain
/// with nothing after the handler.
impl<I: IntoHandler> IntoHandler for (Vec<Box<dyn BeforeMiddleware>>, I) {
    type Output = Chain<I::Output>;

    open spec fn becomes(self, h: Chain<I::Output>) -> bool {
        &&& h.befores == self.0
        &&& self.1.becomes(h.handler)
        &&& h.afters@.len() == 0
    }

    fn into_handler(self) -> (h: Chain<I::Output>) {
        Chain::new(self.0, self.1.into_handler(), Vec::new())
    }
}

/// What becomes the handler and middleware to run after it become a chain
/// with nothing before the handler.
impl<I: IntoHandler> IntoHandler for (I, Vec<Box<dyn AfterMiddleware>>) {
    type Output = Chain<I::Output>;

    open spec fn becomes(self, h: Chain<I::Output>) -> bool {
        &&& h.befores@.len() == 0
        &&& self.0.becomes(h.handler)
        &&& h.afters == self.1
    }

    fn into_handler(self) -> (h: Chain<I::Output>) {
        Chain::new(Vec::new(), self.0.into_handler(), self.1)
    }
}

} // verus!
