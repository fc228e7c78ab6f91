//! Sniffer for the `Host` header of an HTTP request, which is the routing
//! key on the shared HTTP port.

use crate::text::{decode_text, eq_ignore_ascii_case, opt_view, same_ignoring_ascii_case, utf8_text};
use vstd::prelude::*;

verus! {

/// One header of a request head: its name, and its value as the bytes that
/// stood on the wire.
#[derive(Debug, Clone, PartialEq, Eq)]
pub struct HeaderField {
    pub name: String,
    pub value: Vec<u8>,
}

/// The headers of a request head as values, in the order of the head.
pub open spec fn headers_view(headers: Seq<HeaderField>) -> Seq<(Seq<char>, Seq<u8>)> {
    Seq::new(headers.len(), |i: int| (headers[i].name@, headers[i].value@))
}

/// The optional headers of a request head as values.
pub open spec fn head_view(head: Option<Vec<HeaderField>>) -> Option<Seq<(Seq<char>, Seq<u8>)>> {
    match head {
        Some(headers) => Some(headers_view(headers@)),
        None => None,
    }
}

/// The headers that `httparse` reads from `buf` when it is given 64 header
/// slots and `buf` holds a complete request head; `None` when the head is
/// not complete yet, or is not one that `httparse` accepts.
pub uninterp spec fn httparse_request_headers(buf: Seq<u8>) -> Option<Seq<(Seq<char>, Seq<u8>)>>;

/// Calls `httparse::Request::parse` with 64 empty header slots. Trusted:
/// what comes back is `httparse_request_headers` of the bytes given. The
/// headers are handed out only when the parser reports a complete head; a
/// partial head and a parse error both give `None`.
#[verifier::external_body]
fn parse_request_head(buf: &[u8]) -> (head: Option<Vec<HeaderField>>)
    ensures
        head_view(head) == httparse_request_headers(buf@),
{
    let mut slots = [httparse::EMPTY_HEADER; 64];
    let mut request = httparse::Request::new(&mut slots);
    match request.parse(buf) {
        Ok(httparse::Status::Complete(_)) => Some(
            request.headers.iter().map(
                |h| HeaderField { name: h.name.to_string(), value: h.value.to_vec() },
            ).collect(),
        ),
        Ok(httparse::Status::Partial) => None,
        Err(_) => None,
    }
}

/// Whether a header with this name and value names the host: the name is
/// `Host` in any case, and the value is UTF-8.
pub open spec fn names_host(name: Seq<char>, value: Seq<u8>) -> bool {
    same_ignoring_ascii_case(name, "host"@) && utf8_text(value) is Some
}

/// The value of the first header of `headers` that names the host.
pub open spec fn host_in_headers(headers: Seq<(Seq<char>, Seq<u8>)>) -> Option<Seq<char>>
    decreases headers.len(),
{
    if headers.len() == 0 {
        None
    } else {
        let (name, value) = headers[0];
        if names_host(name, value) {
            utf8_text(value)
        } else {
            host_in_headers(headers.drop_first())
        }
    }
}

/// The host that the request head in `buf` names, if `buf` holds a complete
/// head with a `Host` header.
pub open spec fn http_host(buf: Seq<u8>) -> Option<Seq<char>> {
    match httparse_request_headers(buf) {
        Some(headers) => host_in_headers(headers),
        None => None,
    }
}

/// If none of the first `n` headers names the host, the host is to be found
/// in the rest.
proof fn lemma_host_in_rest(headers: Seq<(Seq<char>, Seq<u8>)>, n: int)
    requires
        0 <= n <= headers.len(),
        forall|j: int|
            0 <= j < n ==> {
                let (name, value) = #[trigger] headers[j];
                !names_host(name, value)
            },
    ensures
        host_in_headers(headers) == host_in_headers(headers.skip(n)),
    decreases n,
{
    if n > 0 {
        let rest = headers.drop_first();
        lemma_host_in_rest(rest, n - 1);
        assert(rest.skip(n - 1) =~= headers.skip(n));
    } else {
        assert(headers.skip(0) =~= headers);
    }
}

/// The value of the first header that is named `Host`, in any case, and
/// whose value is UTF-8.
pub fn host_of_headers(headers: &Vec<HeaderField>) -> (host: Option<String>)
    ensures
        opt_view(host) == host_in_headers(headers_view(headers@)),
{
    let ghost all = headers_view(headers@);
    let mut i: usize = 0;
    while i < headers.len()
        invariant
            i <= headers@.len(),
            all == headers_view(headers@),
            forall|j: int|
                0 <= j < i ==> {
                    let (name, value) = #[trigger] all[j];
                    !names_host(name, value)
                },
        decreases headers@.len() - i,
    {
        let header = &headers[i];
        if eq_ignore_ascii_case(header.name.as_str(), "host") {
            let value = decode_text(header.value.as_slice());
            if value.is_some() {
                proof {
                    lemma_host_in_rest(all, i as int);
                }
                return value;
            }
        }
        i = i + 1;
    }
    proof {
        lemma_host_in_rest(all, i as int);
    }
    None
}

/// Collects the first bytes of an HTTP connection until they hold a request
/// head that names its host.
pub struct HttpSniffer {
    buffer: Vec<u8>,
    host: Option<String>,
}

impl HttpSniffer {
    /// The bytes fed so far, in order.
    pub closed spec fn buffered(&self) -> Seq<u8> {
        self.buffer@
    }

    /// The host that an earlier call of `extract_host` found.
    pub closed spec fn found(&self) -> Option<Seq<char>> {
        opt_view(self.host)
    }

    /// A sniffer that has seen no bytes.
    pub fn new() -> (s: Self)
        ensures
            s.buffered() == Seq::<u8>::empty(),
            s.found() is None,
    {
        Self { buffer: Vec::new(), host: None }
    }

    /// Appends `data` to the bytes seen so far.
    pub fn feed(&mut self, data: &[u8])
        ensures
            final(self).buffered() == old(self).buffered() + data@,
            final(self).found() == old(self).found(),
    {
        self.buffer.extend_from_slice(data);
    }

    /// The host that the request names. Once a host was found it is the
    /// answer of every later call; until then the bytes fed so far are
    /// parsed anew.
    pub fn extract_host(&mut self) -> (res: Option<String>)
        ensures
            final(self).buffered() == old(self).buffered(),
            opt_view(res) == match old(self).found() {
                Some(host) => Some(host),
                None => http_host(old(self).buffered()),
            },
            final(self).found() == opt_view(res),
    {
        if self.host.is_some() {
            return self.host.clone();
        }
        let found = match parse_request_head(self.buffer.as_slice()) {
            Some(headers) => host_of_headers(&headers),
            None => None,
        };
        if found.is_some() {
            self.host = found.clone();
        }
        found
    }

    /// Every byte fed so far: what must reach the tunnel before the live
    /// stream does.
    pub fn consumed_bytes(&self) -> (bytes: &[u8])
        ensures
            bytes@ == self.buffered(),
    {
        self.buffer.as_slice()
    }
}

} // verus!
