//! The one request that the execution phase makes, and how its answer is
//! judged.

use crate::input::DataRequestInput;
use crate::text::{str_to_uppercase, uppercase};
use vstd::prelude::*;
use vstd::string::StringExecFns;

verus! {

/// The address of the price feed. The symbols of the pair follow it.
pub const PRICE_ENDPOINT: &'static str = "https://api.binance.com/api/v3/ticker/price?symbol=";

/// What came back from the provider: the status code and the body.
#[derive(Debug, Clone, PartialEq, Eq)]
pub struct FetchResponse {
    pub status: u16,
    pub bytes: Vec<u8>,
}

/// A status code of the 2xx range.
pub open spec fn is_success(status: u16) -> bool {
    200 <= status <= 299
}

/// The address to ask for the price of a pair, from its two symbols as they
/// are to be sent.
pub open spec fn url_of(symbol_a: Seq<char>, symbol_b: Seq<char>) -> Seq<char> {
    PRICE_ENDPOINT@ + symbol_a + symbol_b
}

/// `HttpFetchResponse::is_ok` of the host's SDK, on a response with the given
/// status code. It is believed to tell whether the code lies in the 2xx
/// range.
#[verifier::external_body]
fn status_is_ok(status: u16) -> (ok: bool)
    ensures
        ok == is_success(status),
{
    seda_sdk_rs::HttpFetchResponse {
        status,
        headers: std::collections::BTreeMap::new(),
        bytes: Vec::new(),
        url: String::new(),
        content_length: 0,
    }.is_ok()
}

impl FetchResponse {
    /// Whether the provider fulfilled the request.
    pub fn is_ok(&self) -> (ok: bool)
        ensures
            ok == is_success(self.status),
    {
        status_is_ok(self.status)
    }
}

/// The address for two symbols that are already in the form to be sent.
pub fn build_url(symbol_a: &str, symbol_b: &str) -> (url: String)
    ensures
        url@ == url_of(symbol_a@, symbol_b@),
{
    let mut url = String::from_str(PRICE_ENDPOINT);
    url.append(symbol_a);
    url.append(symbol_b);
    url
}

/// The address to ask for the price of `input`: both symbols are sent in
/// upper case.
pub fn price_request(input: &DataRequestInput) -> (url: String)
    ensures
        url@ == url_of(uppercase(input.symbol_a@), uppercase(input.symbol_b@)),
{
    let symbol_a = str_to_uppercase(input.symbol_a.as_str());
    let symbol_b = str_to_uppercase(input.symbol_b.as_str());
    build_url(symbol_a.as_str(), symbol_b.as_str())
}

} // verus!
