//! Trusted boundary to the HTTP client.
//!
//! The library's only transport is a plain GET; what comes back depends
//! on the network, so the declarations here state nothing about it and
//! every caller handles each outcome.
use vstd::prelude::*;

verus! {

/// The characters of a query parameter list, pairwise.
pub open spec fn param_views(ps: Seq<(String, String)>) -> Seq<(Seq<char>, Seq<char>)> {
    Seq::new(ps.len(), |k: int| (ps[k].0@, ps[k].1@))
}

/// A network or HTTP failure, as the library reports it.
#[derive(Debug)]
pub enum TransportError {
    /// A response arrived but its status code was 400 or above.
    Status(u16),
    /// The request never produced a response; carries a description.
    Transport(String),
    /// The response body could not be read; carries a description.
    Body(String),
}

#[verifier::external_type_specification]
#[verifier::external_body]
pub struct ExRequest(ureq::Request);

#[verifier::external_type_specification]
#[verifier::external_body]
pub struct ExResponse(ureq::Response);

#[verifier::external_type_specification]
#[verifier::external_body]
pub struct ExError(ureq::Error);

/// Relies on `ureq::get`: builds a GET request for the URL.
pub assume_specification [ ureq::get ](path: &str) -> ureq::Request;

/// Relies on `ureq::Request::query`: adds one query parameter,
/// URL-encoding it.
pub assume_specification [ ureq::Request::query ](
    r: ureq::Request,
    param: &str,
    value: &str,
) -> ureq::Request;

/// Relies on `ureq::Request::call`: sends the request and waits for the
/// response; statuses of 400 and above come back as `Error::Status`.
pub assume_specification [ ureq::Request::call ](r: ureq::Request) -> Result<
    ureq::Response,
    ureq::Error,
>;

/// Relies on `ureq::Response::into_reader` and std's `read_to_end`:
/// drains the response body into bytes.  What they hold depends on the
/// network, so nothing is stated of them.
#[verifier::external_body]
fn response_bytes(resp: ureq::Response) -> Result<Vec<u8>, String> {
    let mut bytes: Vec<u8> = Vec::new();
    match resp.into_reader().read_to_end(&mut bytes) {
        Ok(_) => Ok(bytes),
        Err(e) => Err(e.to_string()),
    }
}

/// Relies on `ureq::Error`'s two variants: a received status of 400 or
/// above, or a transport failure with its description.
#[verifier::external_body]
fn transport_of_error(e: ureq::Error) -> TransportError {
    match e {
        ureq::Error::Status(code, _) => TransportError::Status(code),
        ureq::Error::Transport(t) => TransportError::Transport(t.to_string()),
    }
}

/// One GET against `url` with the given query parameters: the body
/// bytes, or the failure.  The outcome depends on the network, so
/// nothing more is stated; callers state what they do with every
/// outcome.
pub fn http_get(url: &str, params: &Vec<(String, String)>) -> Result<Vec<u8>, TransportError> {
    let mut req = ureq::get(url);
    let mut k: usize = 0;
    while k < params.len()
        decreases params.len() - k,
    {
        req = req.query(params[k].0.as_str(), params[k].1.as_str());
        k = k + 1;
    }
    match req.call() {
        Ok(resp) => match response_bytes(resp) {
            Ok(b) => Ok(b),
            Err(m) => Err(TransportError::Body(m)),
        },
        Err(e) => Err(transport_of_error(e)),
    }
}

} // verus!
