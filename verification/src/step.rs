//! What a run of the hook does next.

use vstd::prelude::*;
use crate::json::{Json, JsonView};
use crate::session;

verus! {

/// What a run of the hook does next.
pub enum Step {
    /// Nothing: the host goes its own way.
    Silent,
    /// Print a decision.
    Print(Json),
    /// Report an event to the gateway, then print the output, if any.
    Event(Json, Option<Json>),
    /// Ask the gateway to show a popup that waits this many milliseconds; its
    /// reply decides what is printed.
    Interact(Json, u64),
}

/// The model of a [`Step`].
pub enum StepView {
    Silent,
    Print(JsonView),
    Event(JsonView, Option<JsonView>),
    Interact(JsonView, int),
}

impl View for Step {
    type V = StepView;

    open spec fn view(&self) -> StepView {
        match *self {
            Step::Silent => StepView::Silent,
            Step::Print(j) => StepView::Print(j@),
            Step::Event(b, o) => StepView::Event(b@, session::owned_view(o)),
            Step::Interact(b, ms) => StepView::Interact(b@, ms as int),
        }
    }
}

/// The step that prints an output, or does nothing without one.
pub open spec fn print_view(o: Option<JsonView>) -> StepView {
    match o {
        Some(j) => StepView::Print(j),
        None => StepView::Silent,
    }
}

/// The step that prints an output, or does nothing without one.
pub fn print_or_silent(o: Option<Json>) -> (r: Step)
    ensures
        r@ == print_view(session::owned_view(o)),
{
    match o {
        Some(j) => Step::Print(j),
        None => Step::Silent,
    }
}

/// What there is to print is printed as it is; without it nothing is done.
pub proof fn law_what_there_is_is_printed(j: JsonView)
    ensures
        print_view(Some(j)) == StepView::Print(j),
        print_view(None) == StepView::Silent,
{
}

} // verus!
