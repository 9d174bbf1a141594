//! The oracle program as the host sees it: two entry points, each of which
//! ends in exactly one report.

use crate::codec::{le_bytes, PRICE_WIDTH};
use crate::execution::{
    execution_phase, fetch_message, request_of, ExecutionEvent, ExecutionStep,
    INPUT_FORMAT_MESSAGE, PARSE_MESSAGE,
};
use crate::fetch::is_success;
use crate::reveals::Reveal;
use crate::tally::{tally_of, tally_phase, NO_CONSENSUS_MESSAGE};
use vstd::prelude::*;

verus! {

/// What the host is told at the end of a phase.
#[derive(Debug, Clone, PartialEq, Eq)]
pub enum Report {
    /// The phase has a result: these bytes.
    Success(Vec<u8>),
    /// The phase failed: this is why.
    Error(String),
}

impl Report {
    /// The exit code of the program: 0 for a result, 1 for a failure.
    pub fn exit_code(&self) -> (code: u8)
        ensures
            code == match self {
                Report::Success(_) => 0u8,
                Report::Error(_) => 1u8,
            },
    {
        match self {
            Report::Success(_) => 0,
            Report::Error(_) => 1,
        }
    }
}

/// What the host is to do for the execution phase.
#[derive(Debug, Clone, PartialEq, Eq)]
pub enum Instruction {
    /// Fetch this address and come back with the response.
    Fetch(String),
    /// Read the quote out of this body and come back with it.
    ReadQuote(Vec<u8>),
    /// Report, and end the program.
    Finish(Report),
}

/// Whether `instruction` is what the execution phase answers to `event`: the
/// next request to the host, or the report that ends the phase. No event is
/// left without an answer, and every failure is a report with its text.
pub open spec fn instructed(event: ExecutionEvent, instruction: Instruction) -> bool {
    match event {
        ExecutionEvent::Inputs(raw) => match request_of(raw@) {
            Some(address) => instruction matches Instruction::Fetch(url) && url@ == address,
            None => instruction matches Instruction::Finish(Report::Error(text)) && text@
                == INPUT_FORMAT_MESSAGE@,
        },
        ExecutionEvent::Response(response) => if is_success(response.status) {
            instruction matches Instruction::ReadQuote(body) && body@ == response.bytes@
        } else {
            instruction matches Instruction::Finish(Report::Error(text)) && text@ == fetch_message(
                response.status,
                response.bytes@,
            )
        },
        ExecutionEvent::Quote(quote) => match quote {
            Some(price) => instruction matches Instruction::Finish(Report::Success(bytes))
                && bytes@ == le_bytes(price as nat, PRICE_WIDTH as nat),
            None => instruction matches Instruction::Finish(Report::Error(text)) && text@
                == PARSE_MESSAGE@,
        },
    }
}

/// Whether `report` is what the tally phase reports for `reveals`.
pub open spec fn tallied(reveals: Seq<Reveal>, report: Report) -> bool {
    match tally_of(reveals) {
        Ok(result) => report matches Report::Success(bytes) && bytes@ == result,
        Err(_) => report matches Report::Error(text) && text@ == NO_CONSENSUS_MESSAGE@,
    }
}

/// The price feed program.
#[derive(Debug, Clone, Copy)]
pub struct PriceFeed;

impl PriceFeed {
    /// The execution phase, one event at a time.
    pub fn execute(event: ExecutionEvent) -> (instruction: Instruction)
        ensures
            instructed(event, instruction),
    {
        match execution_phase(event) {
            Ok(ExecutionStep::Fetch(url)) => Instruction::Fetch(url),
            Ok(ExecutionStep::ReadQuote(body)) => Instruction::ReadQuote(body),
            Ok(ExecutionStep::Reveal(bytes)) => Instruction::Finish(Report::Success(bytes)),
            Err(error) => Instruction::Finish(Report::Error(error.message())),
        }
    }

    /// The tally phase.
    pub fn tally(reveals: &Vec<Reveal>) -> (report: Report)
        ensures
            tallied(reveals@, report),
    {
        match tally_phase(reveals) {
            Ok(bytes) => Report::Success(bytes),
            Err(error) => Report::Error(error.message()),
        }
    }
}

} // verus!
