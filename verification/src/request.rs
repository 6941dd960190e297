//! A parsed HTTP request, as the collaborating parser hands it over: method,
//! path, headers (a name may repeat), raw body bytes, protocol version, and
//! an optional parse-failure diagnostic.

use vstd::prelude::*;
use vstd::string::StringExecFns;

verus! {

/// The values found in `headers` under `name`, in order of appearance.
pub open spec fn spec_header_values(headers: Seq<(String, String)>, name: Seq<char>) -> Seq<String>
    decreases headers.len(),
{
    if headers.len() == 0 {
        Seq::empty()
    } else {
        let rest = spec_header_values(headers.drop_last(), name);
        if headers.last().0@ == name {
            rest.push(headers.last().1)
        } else {
            rest
        }
    }
}

/// A request read off one accepted connection. When parsing failed, `error`
/// carries the diagnostic and the other fields hold whatever could be read.
pub struct Request {
    pub method: String,
    pub path: String,
    pub headers: Vec<(String, String)>,
    pub body: Vec<u8>,
    pub version: (u8, u8),
    pub error: Option<String>,
}

impl Request {
    /// Whether the request was parsed without error.
    pub fn is_ok(&self) -> (r: bool)
        ensures
            r == self.error is None,
    {
        self.error.is_none()
    }

    /// Whether this is a HEAD request, whose matched response carries no body
    /// bytes on the wire.
    pub fn is_head(&self) -> (r: bool)
        ensures
            r == (self.method@ == "HEAD"@),
    {
        let head = String::from_str("HEAD");
        self.method == head
    }

    /// All values carried under the given header name, in order.
    pub fn find_header_values(&self, name: &String) -> (r: Vec<String>)
        ensures
            r@ == spec_header_values(self.headers@, name@),
    {
        let mut out: Vec<String> = Vec::new();
        let mut i: usize = 0;
        while i < self.headers.len()
            invariant
                i <= self.headers@.len(),
                out@ == spec_header_values(self.headers@.take(i as int), name@),
            decreases self.headers@.len() - i,
        {
            proof {
                assert(self.headers@.take(i + 1).drop_last() =~= self.headers@.take(i as int));
                assert(self.headers@.take(i + 1).last() == self.headers@[i as int]);
            }
            let pair = &self.headers[i];
            if pair.0 == *name {
                out.push(pair.1.clone());
            }
            i = i + 1;
        }
        proof {
            assert(self.headers@.take(self.headers@.len() as int) =~= self.headers@);
        }
        out
    }
}

} // verus!
