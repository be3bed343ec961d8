use vstd::prelude::*;
use vstd::slice::slice_to_vec;
use vstd::utf8::encode_utf8;
use crate::headers::{with_line, Header, Headers};
use crate::modifier::Modifier;
use crate::status::Status;

verus! {

/// A response: always whole, with a status and a body, be the body empty.
#[derive(Debug)]
pub struct Response {
    pub status: Status,
    pub headers: Headers,
    pub body: Vec<u8>,
}

/// What a response holds, as mathematical values.
pub struct ResponseView {
    pub status: Status,
    pub headers: Seq<(Seq<char>, Seq<char>)>,
    pub body: Seq<u8>,
}

impl View for Response {
    type V = ResponseView;

    open spec fn view(&self) -> ResponseView {
        ResponseView { status: self.status, headers: self.headers@, body: self.body@ }
    }
}

/// The response that nothing was applied to: status OK, no header, an empty
/// body.
pub open spec fn blank() -> ResponseView {
    ResponseView {
        status: Status::Okay,
        headers: Seq::<(Seq<char>, Seq<char>)>::empty(),
        body: Seq::<u8>::empty(),
    }
}

impl Response {
    /// The blank response.
    pub fn new() -> (res: Response)
        ensures
            res@ == blank(),
    {
        Response { status: Status::Okay, headers: Headers::new(), body: Vec::new() }
    }

    /// The blank response with `m` applied to it.
    pub fn with<M: Modifier<Response>>(m: M) -> (res: Response)
        ensures
            m.modifies(blank(), res@),
    {
        Response::new().set(m)
    }

    /// This response with `m` applied to it.
    pub fn set<M: Modifier<Response>>(self, m: M) -> (res: Response)
        ensures
            m.modifies(self@, res@),
    {
        let mut res = self;
        m.modify(&mut res);
        res
    }

    /// Applies `m` to this response where it stands.
    pub fn set_mut<M: Modifier<Response>>(&mut self, m: M)
        ensures
            m.modifies(old(self)@, final(self)@),
    {
        m.modify(self);
    }
}

/// A status replaces the status.
impl Modifier<Response> for Status {
    open spec fn modifies(self, pre: ResponseView, post: ResponseView) -> bool {
        post == (ResponseView { status: self, ..pre })
    }

    fn modify(self, target: &mut Response) {
        target.status = self;
    }
}

/// A header line is set among the headers.
impl Modifier<Response> for Header {
    open spec fn modifies(self, pre: ResponseView, post: ResponseView) -> bool {
        post == (ResponseView { headers: with_line(pre.headers, self.name@, self.value@), ..pre })
    }

    fn modify(self, target: &mut Response) {
        target.headers.set(self.name, self.value);
    }
}

/// Bytes replace the body.
impl Modifier<Response> for Vec<u8> {
    open spec fn modifies(self, pre: ResponseView, post: ResponseView) -> bool {
        post == (ResponseView { body: self@, ..pre })
    }

    fn modify(self, target: &mut Response) {
        target.body = self;
    }
}

/// Text replaces the body with its bytes in UTF-8.
impl Modifier<Response> for String {
    open spec fn modifies(self, pre: ResponseView, post: ResponseView) -> bool {
        post == (ResponseView { body: encode_utf8(self@), ..pre })
    }

    fn modify(self, target: &mut Response) {
        target.body = slice_to_vec(self.as_str().as_bytes());
    }
}

/// Text replaces the body with its bytes in UTF-8.
impl<'a> Modifier<Response> for &'a str {
    open spec fn modifies(self, pre: ResponseView, post: ResponseView) -> bool {
        post == (ResponseView { body: encode_utf8(self@), ..pre })
    }

    fn modify(self, target: &mut Response) {
        target.body = slice_to_vec(self.as_bytes());
    }
}

} // verus!
