//! The order in which the handlers of one event run: one after another in
//! registration order, stopping at the first that fails.
use crate::error::{PixuiError, PixuiErrorView};
use vstd::prelude::*;

verus! {

/// The progress of dispatching one event to its handlers.
pub struct EventDispatch {
    handler_count: usize,
    next: usize,
    failure: Option<PixuiError>,
}

/// Specification view of an [`EventDispatch`]: how many handlers there are,
/// which runs next, and the error of the handler that failed, if one did
/// and it was not yet reported.
pub struct EventDispatchView {
    pub handler_count: nat,
    pub next: nat,
    pub failure: Option<PixuiErrorView>,
}

/// What to do next.
pub enum DispatchStep {
    /// Run the handler registered at this position.
    Call(usize),
    /// Stop and report this result.
    Finish(Result<(), PixuiError>),
}

/// Specification view of a [`DispatchStep`].
pub enum DispatchStepView {
    Call(nat),
    Finish(Result<(), PixuiErrorView>),
}

impl View for DispatchStep {
    type V = DispatchStepView;

    open spec fn view(&self) -> DispatchStepView {
        match self {
            DispatchStep::Call(index) => DispatchStepView::Call(*index as nat),
            DispatchStep::Finish(Ok(())) => DispatchStepView::Finish(Ok(())),
            DispatchStep::Finish(Err(error)) => DispatchStepView::Finish(Err(error@)),
        }
    }
}

/// The view of an optional error.
pub open spec fn failure_view(failure: Option<PixuiError>) -> Option<PixuiErrorView> {
    match failure {
        Some(error) => Some(error@),
        None => None,
    }
}

/// The step that follows: report a failure, else run the next handler,
/// else report success.
pub open spec fn next_step(d: EventDispatchView) -> DispatchStepView {
    match d.failure {
        Some(error) => DispatchStepView::Finish(Err(error)),
        None => if d.next < d.handler_count {
            DispatchStepView::Call(d.next)
        } else {
            DispatchStepView::Finish(Ok(()))
        },
    }
}

/// The dispatch after a step: a reported failure is no longer held.
pub open spec fn after_step(d: EventDispatchView) -> EventDispatchView {
    EventDispatchView { failure: None, ..d }
}

/// The dispatch after the handler that ran ended with `outcome` (an error,
/// or none): the next handler is the following one, and the first error is
/// kept.
pub open spec fn after_handling(d: EventDispatchView, outcome: Option<PixuiErrorView>) -> EventDispatchView {
    EventDispatchView {
        handler_count: d.handler_count,
        next: if d.next < d.handler_count {
            d.next + 1
        } else {
            d.next
        },
        failure: match d.failure {
            Some(error) => Some(error),
            None => outcome,
        },
    }
}

/// The dispatch after `k` handlers in a row succeeded.
pub open spec fn after_successes(d: EventDispatchView, k: nat) -> EventDispatchView
    decreases k,
{
    if k == 0 {
        d
    } else {
        after_handling(after_successes(d, (k - 1) as nat), None)
    }
}

impl View for EventDispatch {
    type V = EventDispatchView;

    closed spec fn view(&self) -> EventDispatchView {
        EventDispatchView {
            handler_count: self.handler_count as nat,
            next: self.next as nat,
            failure: failure_view(self.failure),
        }
    }
}

impl EventDispatch {
    /// Starts dispatching an event to `handler_count` handlers.
    pub fn new(handler_count: usize) -> (dispatch: Self)
        ensures
            dispatch@ == (EventDispatchView { handler_count: handler_count as nat, next: 0, failure: None }),
    {
        EventDispatch { handler_count, next: 0, failure: None }
    }

    /// What to do next.
    pub fn step(&mut self) -> (step: DispatchStep)
        ensures
            step@ == next_step(old(self)@),
            final(self)@ == after_step(old(self)@),
    {
        match self.failure.take() {
            Some(error) => DispatchStep::Finish(Err(error)),
            None => if self.next < self.handler_count {
                DispatchStep::Call(self.next)
            } else {
                DispatchStep::Finish(Ok(()))
            },
        }
    }

    /// Records how the handler that ran ended.
    pub fn handled(&mut self, outcome: Result<(), PixuiError>)
        ensures
            final(self)@ == after_handling(
                old(self)@,
                match outcome {
                    Ok(()) => None,
                    Err(error) => Some(error@),
                },
            ),
    {
        let next = if self.next < self.handler_count {
            self.next + 1
        } else {
            self.next
        };
        let failure = match self.failure.take() {
            Some(error) => Some(error),
            None => match outcome {
                Ok(()) => None,
                Err(error) => Some(error),
            },
        };
        self.next = next;
        self.failure = failure;
    }
}

/// While handlers succeed they run one after another in registration
/// order, and once all have run the dispatch reports success.
pub proof fn law_handlers_run_in_order(handler_count: nat, k: nat)
    ensures
        next_step(after_successes(EventDispatchView { handler_count, next: 0, failure: None }, k)) == if k
            < handler_count {
            DispatchStepView::Call(k)
        } else {
            DispatchStepView::Finish(Ok(()))
        },
    decreases k,
{
    lemma_after_successes(handler_count, k);
}

/// After `k` successes from the start, the next handler is the `k`-th, or
/// the one past the last, and nothing failed.
proof fn lemma_after_successes(handler_count: nat, k: nat)
    ensures
        after_successes(EventDispatchView { handler_count, next: 0, failure: None }, k) == (EventDispatchView {
            handler_count,
            next: if k < handler_count {
                k
            } else {
                handler_count
            },
            failure: None,
        }),
    decreases k,
{
    if k > 0 {
        lemma_after_successes(handler_count, (k - 1) as nat);
    }
}

/// The first handler that fails ends the dispatch: whatever later outcomes
/// are recorded, the next step reports that handler's error.
pub proof fn law_first_failure_ends_dispatch(
    d: EventDispatchView,
    error: PixuiErrorView,
    later: Seq<Option<PixuiErrorView>>,
)
    requires
        d.failure is None,
    ensures
        next_step(after_handling(d, Some(error))) == DispatchStepView::Finish(Err(error)),
        next_step(
            later.fold_left(after_handling(d, Some(error)), |s: EventDispatchView, o: Option<PixuiErrorView>| after_handling(s, o)),
        ) == DispatchStepView::Finish(Err(error)),
    decreases later.len(),
{
    lemma_failure_kept(after_handling(d, Some(error)), error, later);
}

/// Recording outcomes keeps a failure already held.
proof fn lemma_failure_kept(d: EventDispatchView, error: PixuiErrorView, later: Seq<Option<PixuiErrorView>>)
    requires
        d.failure == Some(error),
    ensures
        later.fold_left(d, |s: EventDispatchView, o: Option<PixuiErrorView>| after_handling(s, o)).failure == Some(error),
    decreases later.len(),
{
    if later.len() > 0 {
        lemma_failure_kept(d, error, later.drop_last());
    }
}

} // verus!
