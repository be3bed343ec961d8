use vstd::prelude::*;
use crate::headers::Headers;

verus! {

/// What a request asks to be done with the resource it names.
#[derive(Clone, Debug, PartialEq, Eq)]
pub enum Method {
    Get,
    Head,
    Post,
    Put,
    Delete,
    Options,
    Patch,
    Trace,
    Connect,
    /// A method that has no name here, by the word that the request gave.
    Extension(String),
}

/// A method, as a mathematical value.
pub enum MethodView {
    Get,
    Head,
    Post,
    Put,
    Delete,
    Options,
    Patch,
    Trace,
    Connect,
    Extension(Seq<char>),
}

impl View for Method {
    type V = MethodView;

    open spec fn view(&self) -> MethodView {
        match self {
            Method::Get => MethodView::Get,
            Method::Head => MethodView::Head,
            Method::Post => MethodView::Post,
            Method::Put => MethodView::Put,
            Method::Delete => MethodView::Delete,
            Method::Options => MethodView::Options,
            Method::Patch => MethodView::Patch,
            Method::Trace => MethodView::Trace,
            Method::Connect => MethodView::Connect,
            Method::Extension(word) => MethodView::Extension(word@),
        }
    }
}

/// A request as the transport hands it over. Every stage of a chain may read
/// and change it; none keeps it.
#[derive(Debug)]
pub struct Request {
    pub method: Method,
    pub url: String,
    pub headers: Headers,
    pub body: Vec<u8>,
}

/// What a request holds, as mathematical values.
pub struct RequestView {
    pub method: MethodView,
    pub url: Seq<char>,
    pub headers: Seq<(Seq<char>, Seq<char>)>,
    pub body: Seq<u8>,
}

impl View for Request {
    type V = RequestView;

    open spec fn view(&self) -> RequestView {
        RequestView {
            method: self.method@,
            url: self.url@,
            headers: self.headers@,
            body: self.body@,
        }
    }
}

impl Request {
    /// A request for `url` with no header and an empty body.
    pub fn new(method: Method, url: String) -> (req: Request)
        ensures
            req@ == (RequestView {
                method: method@,
                url: url@,
                headers: Seq::<(Seq<char>, Seq<char>)>::empty(),
                body: Seq::<u8>::empty(),
            }),
    {
        Request { method, url, headers: Headers::new(), body: Vec::new() }
    }
}

} // verus!
