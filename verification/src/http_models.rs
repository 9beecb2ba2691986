//! HTTP requests as the Wi-Fi module sends them.
use vstd::string::StringSliceAdditionalSpecFns;
use vstd::prelude::*;
use crate::debug::append_bytes;

verus! {

/// A request header.
pub struct HttpHeader {
    pub key: Vec<u8>,
    pub value: Vec<u8>,
}

/// An HTTP/1.1 request.
pub struct HttpRequest {
    pub method: Vec<u8>,
    pub request_uri: Vec<u8>,
    pub host: Vec<u8>,
    pub headers: Option<Vec<HttpHeader>>,
    pub content: Option<Vec<u8>>,
}

/// `\r\n`.
pub open spec fn crlf() -> Seq<u8> {
    seq![13u8, 10u8]
}

/// The header lines `key: value\r\n` of `headers`, in order.
pub open spec fn header_lines(headers: Seq<HttpHeader>) -> Seq<u8>
    decreases headers.len(),
{
    if headers.len() == 0 {
        Seq::empty()
    } else {
        header_lines(headers.drop_last()) + headers.last().key@ + seq![58u8, 32u8]
            + headers.last().value@ + crlf()
    }
}

/// The bytes of a request: the request line, the host line, the header
/// lines, an empty line, and the content if there is any.
pub open spec fn request_bytes(r: HttpRequest) -> Seq<u8> {
    r.method@ + seq![32u8] + r.request_uri@ + " HTTP/1.1".spec_bytes() + crlf() + "Host: ".spec_bytes()
        + r.host@ + crlf() + match r.headers {
        None => Seq::empty(),
        Some(h) => header_lines(h@),
    } + crlf() + match r.content {
        None => Seq::empty(),
        Some(c) => c@,
    }
}

impl HttpRequest {
    /// The request as bytes to send.
    pub fn as_vec(&self) -> (r: Vec<u8>)
        ensures
            r@ == request_bytes(*self),
    {
        let mut result: Vec<u8> = Vec::new();
        append_bytes(&mut result, self.method.as_slice());
        result.push(32u8);
        append_bytes(&mut result, self.request_uri.as_slice());
        append_bytes(&mut result, " HTTP/1.1".as_bytes());
        result.push(13u8);
        result.push(10u8);
        append_bytes(&mut result, "Host: ".as_bytes());
        append_bytes(&mut result, self.host.as_slice());
        result.push(13u8);
        result.push(10u8);
        let ghost prefix = result@;
        match &self.headers {
            None => {},
            Some(headers) => {
                let mut idx: usize = 0;
                while idx < headers.len()
                    invariant
                        idx <= headers@.len(),
                        result@ == prefix + header_lines(headers@.take(idx as int)),
                    decreases headers@.len() - idx,
                {
                    let header = &headers[idx];
                    append_bytes(&mut result, header.key.as_slice());
                    result.push(58u8);
                    result.push(32u8);
                    append_bytes(&mut result, header.value.as_slice());
                    result.push(13u8);
                    result.push(10u8);
                    proof {
                        assert(headers@.take(idx + 1).drop_last() =~= headers@.take(idx as int));
                    }
                    idx = idx + 1;
                    assert(result@ =~= prefix + header_lines(headers@.take(idx as int)));
                }
                assert(headers@.take(idx as int) =~= headers@);
            },
        }
        result.push(13u8);
        result.push(10u8);
        match &self.content {
            None => {},
            Some(content) => {
                append_bytes(&mut result, content.as_slice());
            },
        }
        assert(result@ =~= request_bytes(*self));
        result
    }
}

} // verus!
