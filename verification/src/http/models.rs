//! HTTP requests in the shorter, newline-separated form, with a content
//! length.
use vstd::prelude::*;
use vstd::string::StringSliceAdditionalSpecFns;
use crate::debug::append_bytes;
use crate::math::{decimal_text, digit_chars};

verus! {

/// A request header.
pub struct HttpHeader {
    pub key: Vec<u8>,
    pub value: Vec<u8>,
}

/// A request.
pub struct HttpRequest {
    /// The verb, such as GET, PUT or POST.
    pub method: Vec<u8>,
    /// The path after the verb, such as /index.html.
    pub request_path: Vec<u8>,
    /// The host name and top-level domain.
    pub host: Vec<u8>,
    pub headers: Option<Vec<HttpHeader>>,
    pub content: Option<Vec<u8>>,
}

/// The header lines `key: value\n` of `headers`, in order.
pub open spec fn header_lines(headers: Seq<HttpHeader>) -> Seq<u8>
    decreases headers.len(),
{
    if headers.len() == 0 {
        Seq::empty()
    } else {
        header_lines(headers.drop_last()) + headers.last().key@ + seq![58u8, 32u8]
            + headers.last().value@ + seq![10u8]
    }
}

/// The bytes of a request: the request line, the host line, the header
/// lines, then either an empty line, or the content's length, an empty
/// line and the content.
pub open spec fn request_text(r: HttpRequest) -> Seq<u8> {
    r.method@ + seq![32u8] + r.request_path@ + " HTTP/1.1\n".spec_bytes() + "HOST: ".spec_bytes()
        + r.host@ + seq![10u8] + match r.headers {
        None => Seq::empty(),
        Some(h) => header_lines(h@),
    } + match r.content {
        None => seq![10u8],
        Some(c) => "Content-Length: ".spec_bytes() + digit_chars(c@.len(), 10).reverse()
            + seq![10u8, 10u8] + c@,
    }
}

impl HttpRequest {
    /// The request as bytes to send.
    pub fn to_str(&self) -> (r: Vec<u8>)
        ensures
            r@ == request_text(*self),
    {
        let mut result: Vec<u8> = Vec::new();
        append_bytes(&mut result, self.method.as_slice());
        result.push(32u8);
        append_bytes(&mut result, self.request_path.as_slice());
        append_bytes(&mut result, " HTTP/1.1\n".as_bytes());
        append_bytes(&mut result, "HOST: ".as_bytes());
        append_bytes(&mut result, self.host.as_slice());
        result.push(10u8);
        let ghost prefix = result@;
        match &self.headers {
            None => {},
            Some(headers) => {
                let mut idx: usize = 0;
                while idx < headers.len()
                    invariant
                        idx <= headers@.len(),
                        result@ == prefix + header_lines(headers@.take(idx as int)),
                    decreases headers@.len() - idx,
                {
                    let header = &headers[idx];
                    append_bytes(&mut result, header.key.as_slice());
                    result.push(58u8);
                    result.push(32u8);
                    append_bytes(&mut result, header.value.as_slice());
                    result.push(10u8);
                    proof {
                        assert(headers@.take(idx + 1).drop_last() =~= headers@.take(idx as int));
                    }
                    idx = idx + 1;
                    assert(result@ =~= prefix + header_lines(headers@.take(idx as int)));
                }
                assert(headers@.take(idx as int) =~= headers@);
            },
        }
        match &self.content {
            None => {
                result.push(10u8);
            },
            Some(content) => {
                append_bytes(&mut result, "Content-Length: ".as_bytes());
                let digits = decimal_text(content.len() as u64);
                append_bytes(&mut result, digits.as_slice());
                result.push(10u8);
                result.push(10u8);
                append_bytes(&mut result, content.as_slice());
            },
        }
        assert(result@ =~= request_text(*self));
        result
    }
}

} // verus!
