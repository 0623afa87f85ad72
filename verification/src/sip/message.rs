//! SIP messages: what is read from them and what is answered.

use vstd::prelude::*;

verus! {

/// A URI found in a message.
#[derive(Debug)]
pub struct SipUri {
    /// The extension that it names, where it names one.
    pub extension: Option<String>,
}

impl View for SipUri {
    type V = Option<Seq<char>>;

    open spec fn view(&self) -> Option<Seq<char>> {
        crate::text::text_view(self.extension)
    }
}

/// The view of an optional URI.
pub open spec fn uri_view(uri: Option<SipUri>) -> Option<Option<Seq<char>>> {
    match uri {
        Some(u) => Some(u@),
        None => None,
    }
}

/// A header that a response carries besides those copied from the request.
#[derive(Debug)]
pub struct Header {
    pub name: String,
    pub value: String,
}

impl View for Header {
    type V = (Seq<char>, Seq<char>);

    open spec fn view(&self) -> (Seq<char>, Seq<char>) {
        (self.name@, self.value@)
    }
}

/// The answer to a request.
#[derive(Debug)]
pub struct Response {
    /// The status code.
    pub status: u16,
    /// The reason phrase.
    pub reason: String,
    /// The headers that are added.
    pub headers: Vec<Header>,
}

/// What [`Response`] holds.
#[verifier::ext_equal]
pub struct ResponseView {
    pub status: u16,
    pub reason: Seq<char>,
    pub headers: Seq<(Seq<char>, Seq<char>)>,
}

impl View for Response {
    type V = ResponseView;

    open spec fn view(&self) -> ResponseView {
        ResponseView {
            status: self.status,
            reason: self.reason@,
            headers: Seq::new(self.headers@.len(), |i: int| self.headers@[i]@),
        }
    }
}

/// An answer without added headers.
pub open spec fn plain(status: u16, reason: Seq<char>) -> ResponseView {
    ResponseView { status, reason, headers: Seq::empty() }
}

impl Response {
    /// An answer without added headers.
    pub fn new(status: u16, reason: &str) -> (response: Self)
        ensures
            response@ == plain(status, reason@),
    {
        let response = Response { status, reason: reason.to_owned(), headers: Vec::new() };
        assert(response@ =~= plain(status, reason@));
        response
    }

    /// Adds a header at the end.
    pub fn add_header(&mut self, name: &str, value: &str)
        ensures
            final(self)@ == (ResponseView {
                headers: old(self)@.headers.push((name@, value@)),
                ..old(self)@
            }),
    {
        let ghost before = self@;
        self.headers.push(Header { name: name.to_owned(), value: value.to_owned() });
        assert(self@.headers =~= before.headers.push((name@, value@)));
    }
}

} // verus!
