//! A plain-value model of the HTTP exchange the handlers see: a request's
//! path, raw query string and headers, and the response a handler decides
//! on.  The listener that produces requests and writes responses onto the
//! wire is an external collaborator.

use vstd::prelude::*;
use vstd::string::StringExecFns;

verus! {

/// One request or response header.
#[derive(Debug, Clone)]
pub struct HeaderEntry {
    pub name: String,
    pub value: String,
}

/// What a handler reads of an inbound request.
#[derive(Debug, Clone)]
pub struct HttpRequest {
    pub path: String,
    /// The raw query string, without the `?`; absent when the URL has
    /// none.
    pub query: Option<String>,
    pub headers: Vec<HeaderEntry>,
}

/// What a handler decides: a status code, headers, and a plain-text body.
#[derive(Debug, Clone)]
pub struct HttpResponse {
    pub status: u16,
    pub headers: Vec<HeaderEntry>,
    pub body: String,
}

/// The body of a redirect response pointing at `link`.
pub open spec fn redirect_body(link: Seq<char>) -> Seq<char> {
    "Redirecting to <a href='"@ + link + "'>"@ + link + "</a>\n"@
}

/// A `307 Temporary Redirect` whose `Location` header and body both carry
/// `link`.
pub fn redirect(link: &str) -> (r: HttpResponse)
    ensures
        r.status == 307,
        r.headers@.len() == 1,
        r.headers@[0].name@ == "Location"@,
        r.headers@[0].value@ == link@,
        r.body@ == redirect_body(link@),
{
    let mut body = String::from_str("Redirecting to <a href='");
    body.append(link);
    body.append("'>");
    body.append(link);
    body.append("</a>\n");
    let mut headers: Vec<HeaderEntry> = Vec::new();
    headers.push(HeaderEntry { name: String::from_str("Location"), value: String::from_str(link) });
    HttpResponse { status: 307, headers, body }
}

/// A `400 Bad Request` carrying `msg` and a trailing newline as its body.
pub fn bad_request(msg: &str) -> (r: HttpResponse)
    ensures
        r.status == 400,
        r.headers@.len() == 0,
        r.body@ == msg@ + "\n"@,
{
    let mut body = String::from_str(msg);
    body.append("\n");
    HttpResponse { status: 400, headers: Vec::new(), body }
}

/// A `200 OK` carrying `body` as plain text.
pub fn ok_response(body: String) -> (r: HttpResponse)
    ensures
        r.status == 200,
        r.headers@.len() == 0,
        r.body@ == body@,
{
    HttpResponse { status: 200, headers: Vec::new(), body }
}

/// The value of the first header named `name`, if any.
pub open spec fn header_lookup(headers: Seq<HeaderEntry>, name: Seq<char>) -> Option<Seq<char>>
    decreases headers.len(),
{
    if headers.len() == 0 {
        None
    } else if headers[0].name@ == name {
        Some(headers[0].value@)
    } else {
        header_lookup(headers.drop_first(), name)
    }
}

proof fn lemma_header_lookup_found(headers: Seq<HeaderEntry>, name: Seq<char>, i: int)
    requires
        0 <= i < headers.len(),
        forall|j: int| 0 <= j < i ==> headers[j].name@ != name,
        headers[i].name@ == name,
    ensures
        header_lookup(headers, name) == Some(headers[i].value@),
    decreases i,
{
    if i > 0 {
        assert(forall|j: int|
            0 <= j < i - 1 ==> headers.drop_first()[j].name@ != name);
        lemma_header_lookup_found(headers.drop_first(), name, i - 1);
    }
}

proof fn lemma_header_lookup_absent(headers: Seq<HeaderEntry>, name: Seq<char>)
    requires
        forall|j: int| 0 <= j < headers.len() ==> headers[j].name@ != name,
    ensures
        header_lookup(headers, name) is None,
    decreases headers.len(),
{
    if headers.len() > 0 {
        lemma_header_lookup_absent(headers.drop_first(), name);
    }
}

impl HttpRequest {
    /// The value of the first header of this request named `name`, if any.
    pub fn header<'a>(&'a self, name: &str) -> (r: Option<&'a String>)
        ensures
            r is Some <==> header_lookup(self.headers@, name@) is Some,
            r is Some ==> Some(r->0@) == header_lookup(self.headers@, name@),
    {
        let mut i: usize = 0;
        while i < self.headers.len()
            invariant
                i <= self.headers@.len(),
                forall|j: int| 0 <= j < i ==> self.headers@[j].name@ != name@,
            decreases self.headers@.len() - i,
        {
            if crate::strkit::str_equal(self.headers[i].name.as_str(), name) {
                proof {
                    lemma_header_lookup_found(self.headers@, name@, i as int);
                }
                return Some(&self.headers[i].value);
            }
            i = i + 1;
        }
        proof {
            lemma_header_lookup_absent(self.headers@, name@);
        }
        None
    }
}

} // verus!
