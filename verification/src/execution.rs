//! The execution phase: from the input of a data request to the reveal of
//! one node.
//!
//! The phase needs the host three times: for the raw input, for the answer
//! of the price feed, and for the quote read out of that answer. Each time
//! the host comes back with an event, and `execution_phase` says what follows
//! from it.

use crate::codec::{encode_price, le_bytes, PRICE_WIDTH};
use crate::fetch::{is_success, price_request, url_of, FetchResponse};
use crate::input::{pair_of, parse_input};
use crate::text::{decimal, decimal_text, read_text, text_of, uppercase};
use vstd::prelude::*;
use vstd::string::StringExecFns;

verus! {

/// Why an execution ends without a reveal.
#[derive(Debug, Clone, PartialEq, Eq)]
pub enum ExecutionError {
    /// The input is not an asset pair of the form `tokenA-tokenB`.
    InputFormat,
    /// The price feed did not fulfil the request.
    Fetch { status: u16, body: Vec<u8> },
    /// The answer of the price feed holds no numeric quote.
    Parse,
}

/// What the host brings to the execution phase.
#[derive(Debug, Clone, PartialEq, Eq)]
pub enum ExecutionEvent {
    /// The raw input of the data request.
    Inputs(Vec<u8>),
    /// The answer of the price feed.
    Response(FetchResponse),
    /// The quote of a fulfilled answer, times 1,000,000 and cut to a whole
    /// number; `None` where the answer holds no numeric quote.
    Quote(Option<u128>),
}

/// What the execution phase asks of the host next.
#[derive(Debug, Clone, PartialEq, Eq)]
pub enum ExecutionStep {
    /// Fetch this address and come back with the response.
    Fetch(String),
    /// Read the quote out of this body and come back with it.
    ReadQuote(Vec<u8>),
    /// The phase is over: reveal these bytes.
    Reveal(Vec<u8>),
}

/// The text for an input that is no asset pair.
pub const INPUT_FORMAT_MESSAGE: &'static str = "format should be tokenA-tokenB";

/// The start of the text for a request that was not fulfilled.
pub const FETCH_MESSAGE: &'static str = "Error while fetching price feed: ";

/// What stands between the status code and the body in that text.
pub const FETCH_MESSAGE_BODY: &'static str = " - ";

/// The text for an answer without a numeric quote.
pub const PARSE_MESSAGE: &'static str = "Error while parsing price feed";

/// The text for a request that was not fulfilled: the status code in decimal
/// and, where the body is UTF-8 text, the body.
pub open spec fn fetch_message(status: u16, body: Seq<u8>) -> Seq<char> {
    let head = FETCH_MESSAGE@ + decimal(status as nat);
    match text_of(body) {
        Some(text) => head + FETCH_MESSAGE_BODY@ + text,
        None => head,
    }
}

/// The address that the raw input asks to fetch, where it is an asset pair.
pub open spec fn request_of(raw: Seq<u8>) -> Option<Seq<char>> {
    match pair_of(raw) {
        Some((symbol_a, symbol_b)) => Some(url_of(uppercase(symbol_a), uppercase(symbol_b))),
        None => None,
    }
}

impl ExecutionError {
    /// The text that the host is given for this error.
    pub open spec fn message_of(self) -> Seq<char> {
        match self {
            ExecutionError::InputFormat => INPUT_FORMAT_MESSAGE@,
            ExecutionError::Fetch { status, body } => fetch_message(status, body@),
            ExecutionError::Parse => PARSE_MESSAGE@,
        }
    }

    /// The text that the host is given for this error.
    pub fn message(&self) -> (text: String)
        ensures
            text@ == self.message_of(),
    {
        match self {
            ExecutionError::InputFormat => String::from_str(INPUT_FORMAT_MESSAGE),
            ExecutionError::Fetch { status, body } => {
                let mut text = String::from_str(FETCH_MESSAGE);
                let code = decimal_text(*status);
                text.append(code.as_str());
                match read_text(body.clone()) {
                    Some(body_text) => {
                        text.append(FETCH_MESSAGE_BODY);
                        text.append(body_text.as_str());
                    },
                    None => {},
                }
                text
            },
            ExecutionError::Parse => String::from_str(PARSE_MESSAGE),
        }
    }
}

/// Whether `result` is what follows from `event`.
pub open spec fn follows(event: ExecutionEvent, result: Result<ExecutionStep, ExecutionError>) -> bool {
    match event {
        ExecutionEvent::Inputs(raw) => match request_of(raw@) {
            Some(address) => result matches Ok(ExecutionStep::Fetch(url)) && url@ == address,
            None => result matches Err(ExecutionError::InputFormat),
        },
        ExecutionEvent::Response(response) => if is_success(response.status) {
            result matches Ok(ExecutionStep::ReadQuote(body)) && body@ == response.bytes@
        } else {
            result matches Err(ExecutionError::Fetch { status, body }) && status == response.status
                && body@ == response.bytes@
        },
        ExecutionEvent::Quote(quote) => match quote {
            Some(price) => result matches Ok(ExecutionStep::Reveal(bytes)) && bytes@ == le_bytes(
                price as nat,
                PRICE_WIDTH as nat,
            ),
            None => result matches Err(ExecutionError::Parse),
        },
    }
}

/// One decision of the execution phase: what follows from what the host
/// brought.
///
/// An input that is an asset pair is answered with the address to fetch. A
/// fulfilled response is answered with its body, for the quote to be read;
/// any other response ends the phase with its status and body. A quote is
/// answered with the reveal, its 16 bytes with the least significant first.
pub fn execution_phase(event: ExecutionEvent) -> (result: Result<ExecutionStep, ExecutionError>)
    ensures
        follows(event, result),
{
    match event {
        ExecutionEvent::Inputs(raw) => match parse_input(raw) {
            Some(input) => Ok(ExecutionStep::Fetch(price_request(&input))),
            None => Err(ExecutionError::InputFormat),
        },
        ExecutionEvent::Response(response) => {
            if response.is_ok() {
                Ok(ExecutionStep::ReadQuote(response.bytes))
            } else {
                Err(ExecutionError::Fetch { status: response.status, body: response.bytes })
            }
        },
        ExecutionEvent::Quote(quote) => match quote {
            Some(price) => Ok(ExecutionStep::Reveal(encode_price(price))),
            None => Err(ExecutionError::Parse),
        },
    }
}

} // verus!
