use vstd::prelude::*;
use crate::modifier::Modifier;
use crate::response::{blank, Response, ResponseView};

verus! {

/// A cause in plain data: a description, and the cause beneath it where
/// there is one. Any failure, whatever its origin, can be written down as
/// one of these.
#[derive(Debug)]
pub struct Cause {
    pub description: String,
    pub cause: Option<Box<Cause>>,
}

/// The cause of a failure: it describes itself, and may rest on a further
/// cause beneath it.
pub trait Error: Send + 'static {
    /// `text` is a description that this cause may give of itself. Unless an
    /// implementor says more, any text is.
    open spec fn describes(&self, text: Seq<char>) -> bool {
        true
    }

    /// `below` holds descriptions that the causes beneath this one may give,
    /// the nearest first. Unless an implementor says more, any do.
    open spec fn rests_on(&self, below: Seq<Seq<char>>) -> bool {
        true
    }

    /// A short text that says what went wrong.
    fn description(&self) -> (s: &str)
        ensures
            self.describes(s@),
    ;

    /// The cause beneath this one, where there is one.
    fn cause(&self) -> (c: Option<&Cause>)
        ensures
            self.rests_on(beneath(c)),
    ;
}

/// The descriptions from `c` down to the deepest cause, and none where `c`
/// is no cause.
pub open spec fn beneath(c: Option<&Cause>) -> Seq<Seq<char>> {
    match c {
        Some(below) => below.chain(),
        None => Seq::<Seq<char>>::empty(),
    }
}

impl Cause {
    /// The descriptions from this cause down to the deepest one.
    pub open spec fn chain(self) -> Seq<Seq<char>>
        decreases self,
    {
        match self.cause {
            Some(below) => seq![self.description@] + below.chain(),
            None => seq![self.description@],
        }
    }

    /// The cause that `description` describes, resting on `cause`.
    pub fn new(description: String, cause: Option<Cause>) -> (c: Cause)
        ensures
            c.chain() == match cause {
                Some(below) => seq![description@] + below.chain(),
                None => seq![description@],
            },
    {
        match cause {
            Some(below) => Cause { description, cause: Some(Box::new(below)) },
            None => Cause { description, cause: None },
        }
    }

    /// A second cause with the same descriptions all the way down.
    pub fn duplicate(&self) -> (c: Cause)
        ensures
            c.chain() == self.chain(),
        decreases *self,
    {
        match &self.cause {
            Some(below) => {
                let copy = below.duplicate();
                Cause { description: self.description.clone(), cause: Some(Box::new(copy)) }
            },
            None => Cause { description: self.description.clone(), cause: None },
        }
    }

    /// What `e` says of itself and of the causes beneath it, in plain data.
    pub fn of<E: Error + ?Sized>(e: &E) -> (c: Cause)
        ensures
            c.chain().len() > 0,
            e.describes(c.chain().first()),
            e.rests_on(c.chain().drop_first()),
    {
        let description = e.description().to_owned();
        match e.cause() {
            Some(below) => {
                let c = Cause { description, cause: Some(Box::new(below.duplicate())) };
                assert(c.chain().drop_first() =~= below.chain());
                c
            },
            None => {
                let c = Cause { description, cause: None };
                assert(c.chain().drop_first() =~= Seq::<Seq<char>>::empty());
                c
            },
        }
    }
}

impl Error for Cause {
    open spec fn describes(&self, text: Seq<char>) -> bool {
        text == self.description@
    }

    open spec fn rests_on(&self, below: Seq<Seq<char>>) -> bool {
        below == self.chain().drop_first()
    }

    fn description(&self) -> (s: &str) {
        self.description.as_str()
    }

    fn cause(&self) -> (c: Option<&Cause>)
        ensures
            match self.cause {
                Some(below) => c == Some(&*below),
                None => c is None,
            },
    {
        match &self.cause {
            Some(below) => {
                assert(self.chain().drop_first() =~= below.chain());
                Some(&**below)
            },
            None => {
                assert(self.chain().drop_first() =~= Seq::<Seq<char>>::empty());
                None
            },
        }
    }
}

/// What went wrong, and what to answer if nothing repairs it.
///
/// A stage that fails hands out one of these, never a bare cause, so that
/// there is always a response to send.
#[derive(Debug)]
pub struct IronError {
    /// The cause. A stage that catches the failure may put its own cause on
    /// top of it.
    pub error: Cause,
    /// The response to send where no later stage recovers.
    pub response: Response,
}

/// What an `IronError` holds, as mathematical values.
pub struct IronErrorView {
    /// The descriptions of the cause and of the causes beneath it.
    pub error: Seq<Seq<char>>,
    pub response: ResponseView,
}

impl View for IronError {
    type V = IronErrorView;

    open spec fn view(&self) -> IronErrorView {
        IronErrorView { error: self.error.chain(), response: self.response@ }
    }
}

/// What the stages of a chain return.
pub type IronResult<T> = Result<T, IronError>;

impl IronError {
    /// The failure with cause `e` whose response is the blank response with
    /// `m` applied to it.
    pub fn new<E: Error, M: Modifier<Response>>(e: E, m: M) -> (err: IronError)
        ensures
            err@.error.len() > 0,
            e.describes(err@.error.first()),
            e.rests_on(err@.error.drop_first()),
            m.modifies(blank(), err@.response),
    {
        IronError { error: Cause::of(&e), response: Response::with(m) }
    }
}

/// An `IronError` is described by its cause.
impl Error for IronError {
    open spec fn describes(&self, text: Seq<char>) -> bool {
        self.error.describes(text)
    }

    open spec fn rests_on(&self, below: Seq<Seq<char>>) -> bool {
        self.error.rests_on(below)
    }

    fn description(&self) -> (s: &str) {
        self.error.description()
    }

    fn cause(&self) -> (c: Option<&Cause>)
        ensures
            match self.error.cause {
                Some(below) => c == Some(&*below),
                None => c is None,
            },
    {
        self.error.cause()
    }
}

/// The failure of a request that names no resource. It may hold another
/// cause that says more.
#[derive(Debug)]
pub struct NotFound(pub Option<Cause>);

impl Default for NotFound {
    fn default() -> (e: NotFound)
        ensures
            e.0.is_none(),
    {
        NotFound(None)
    }
}

impl Error for NotFound {
    open spec fn describes(&self, text: Seq<char>) -> bool {
        text == "Not Found"@
    }

    /// The cause beneath is the cause held, with all that lies beneath it.
    open spec fn rests_on(&self, below: Seq<Seq<char>>) -> bool {
        match self.0 {
            Some(held) => below == held.chain(),
            None => below == Seq::<Seq<char>>::empty(),
        }
    }

    fn description(&self) -> (s: &str) {
        "Not Found"
    }

    fn cause(&self) -> (c: Option<&Cause>)
        ensures
            match self.0 {
                Some(held) => c == Some(&held),
                None => c is None,
            },
    {
        match &self.0 {
            Some(held) => Some(held),
            None => None,
        }
    }
}

} // verus!
