//! The one blocking HTTP capability the fetchers use. Nothing is promised
//! of what comes back over the network: callers state what holds of every
//! outcome, and hand the body to verified code.
use vstd::prelude::*;

verus! {

/// Relies on ureq: `get(url)` with an Accept header, `call()`, and
/// `Response::into_string`. One blocking GET whose body comes back as
/// text; any failure, including a non-2xx status, comes back as a message.
#[verifier::external_body]
pub(crate) fn http_get(url: &str, accept: &str) -> (r: Result<String, String>)
{
    match ureq::get(url).set("Accept", accept).call() {
        Ok(resp) => match resp.into_string() {
            Ok(body) => Ok(body),
            Err(e) => Err(e.to_string()),
        },
        Err(e) => Err(e.to_string()),
    }
}

/// Relies on ureq as `http_get` does, plus `Request::query`, which
/// URL-encodes one query parameter.
#[verifier::external_body]
pub(crate) fn http_get_query(url: &str, accept: &str, param: &str, value: &str) -> (r: Result<
    String,
    String,
>)
{
    match ureq::get(url).set("Accept", accept).query(param, value).call() {
        Ok(resp) => match resp.into_string() {
            Ok(body) => Ok(body),
            Err(e) => Err(e.to_string()),
        },
        Err(e) => Err(e.to_string()),
    }
}

} // verus!
