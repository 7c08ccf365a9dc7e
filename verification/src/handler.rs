//! Turning an unexpected failure of a request handler into a problem
//! response.
//!
//! The serving layer catches the failure and hands over its message, where
//! the failure carried one as text. What is answered is decided here: the
//! configured problem, with the message as its `detail` where that was asked
//! for.

use crate::json::string_value;
use crate::problem::{new, Problem, ProblemView};
use crate::response::{rendered, Response, ResponseView};
use crate::status::{internal_server_error, status_number};
use serde_json::Value;
use vstd::prelude::*;

verus! {

/// The title of the default problem, and the text that stands for a failure
/// that carried no message.
pub const GENERIC_MESSAGE: &'static str = "Internal server error";

/// The text that reports a failure: its message, or the generic text where
/// it carried none.
pub open spec fn failure_text(message: Option<Seq<char>>) -> Seq<char> {
    match message {
        Some(text) => text,
        None => GENERIC_MESSAGE@,
    }
}

/// What a handler is configured with.
pub struct PanicHandlerView {
    /// Whether the failure's message is put into the problem's `detail`.
    pub fill_detail: bool,
    /// The problem that every failure is answered with.
    pub problem: ProblemView,
}

impl PanicHandlerView {
    /// The problem that reports a failure with the given message.
    pub open spec fn reported(self, message: Option<Seq<char>>) -> ProblemView {
        if self.fill_detail {
            self.problem.with_detail(failure_text(message))
        } else {
            self.problem
        }
    }

    /// The response to a failure with the given message.
    pub open spec fn response_for(self, message: Option<Seq<char>>) -> ResponseView {
        rendered(self.reported(message))
    }
}

/// The text of a message as a handler is given it.
pub open spec fn message_text(message: Option<&str>) -> Option<Seq<char>> {
    match message {
        Some(text) => Some(text@),
        None => None,
    }
}

/// A handler that answers failures with a problem response, and the builder
/// that configures it.
#[derive(Debug)]
pub struct PanicHandlerBuilder {
    fill_detail: bool,
    problem: Problem,
}

impl View for PanicHandlerBuilder {
    type V = PanicHandlerView;

    closed spec fn view(&self) -> PanicHandlerView {
        PanicHandlerView { fill_detail: self.fill_detail, problem: self.problem@ }
    }
}

impl PanicHandlerBuilder {
    /// The default handler: status 500 with the generic title, and the
    /// failure's message as `detail` in a development build only, so that a
    /// production build does not show internal text to clients unless asked.
    pub fn new(development_build: bool) -> (handler: PanicHandlerBuilder)
        ensures
            handler@.fill_detail == development_build,
            status_number(handler@.problem.status_code) == 500,
            handler@.problem.body == Map::<Seq<char>, Value>::empty().insert(
                "title"@,
                string_value(GENERIC_MESSAGE@),
            ),
    {
        PanicHandlerBuilder {
            fill_detail: development_build,
            problem: new(internal_server_error()).with_title(GENERIC_MESSAGE),
        }
    }

    /// Chooses whether the failure's message is put into `detail`.
    pub fn with_fill_detail(self, enabled: bool) -> (handler: PanicHandlerBuilder)
        ensures
            handler@ == (PanicHandlerView { fill_detail: enabled, problem: self@.problem }),
    {
        PanicHandlerBuilder { fill_detail: enabled, problem: self.problem }
    }

    /// Sets the problem that failures are answered with. Where `detail` is
    /// filled, the failure's message replaces any `detail` it has.
    pub fn with_problem(self, problem: Problem) -> (handler: PanicHandlerBuilder)
        ensures
            handler@ == (PanicHandlerView { fill_detail: self@.fill_detail, problem: problem@ }),
    {
        PanicHandlerBuilder { fill_detail: self.fill_detail, problem }
    }

    /// Answers a failure. `message` is the text that the failure carried, if
    /// it carried text.
    pub fn response_for_panic(&self, message: Option<&str>) -> (response: Response)
        ensures
            response@ == self@.response_for(message_text(message)),
    {
        let detail = match message {
            Some(text) => text,
            None => GENERIC_MESSAGE,
        };
        if self.fill_detail {
            self.problem.clone().with_detail(detail).into_response()
        } else {
            self.problem.clone().into_response()
        }
    }
}

impl Clone for PanicHandlerBuilder {
    /// A handler with the same configuration.
    fn clone(&self) -> (handler: PanicHandlerBuilder)
        ensures
            handler@ == self@,
    {
        PanicHandlerBuilder { fill_detail: self.fill_detail, problem: self.problem.clone() }
    }
}

} // verus!
