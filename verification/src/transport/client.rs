//! How the side that connects drives its state machine.
//!
//! An input goes to the state machine, and each time the outputs come here. The step that
//! comes back says which messages go out at once, what follows, and in which phase the next
//! outputs are to be handed in.
use crate::network::{NetworkError, NetworkOutput};
use crate::transport::outputs::{
    are_encodable, asks_for_poll, collect_messages, contents_of, find_request, has_no_request,
    is_first_request, messages_of, needs_poll, pending_actions, perform_all, PendingAction,
};
use vstd::prelude::*;

verus! {

/// How often the state machine is polled for one input.
pub const MAX_POLL_ITERATIONS: u32 = 10;

/// Where the outputs come from.
#[derive(Debug, Clone, Copy, PartialEq, Eq, Structural)]
pub enum Phase {
    /// From an input, or from the result of an operation that it led to.
    Event,
    /// From the poll with this number.
    Poll { iteration: u32 },
    /// From the result of an operation that a poll led to.
    PollCrypto { iteration: u32, needs_poll: bool },
}

/// What follows.
#[derive(Debug, Clone)]
pub enum Directive {
    /// Carry out the operation that the output at this place asks for, and feed the result.
    Execute(usize),
    /// Feed a tick.
    Tick,
    /// Carry out these actions in order; then the input is done with.
    Perform(Vec<PendingAction>),
    /// The input is done with.
    Done,
    /// The input failed.
    Fail(NetworkError),
}

/// A step.
#[derive(Debug, Clone)]
pub struct Step {
    /// The messages to send first.
    pub messages: Vec<Vec<u8>>,
    pub directive: Directive,
    /// Where the next outputs come from.
    pub phase: Phase,
}

/// What follows a poll that led to no operation, or whose operation is done with.
pub open spec fn is_after_poll(step: Step, iteration: u32, again: bool) -> bool {
    if again && iteration + 1 < MAX_POLL_ITERATIONS {
        &&& step.directive == Directive::Tick
        &&& step.phase == Phase::Poll { iteration: (iteration + 1) as u32 }
    } else {
        step.directive == Directive::Done
    }
}

/// Whether a step is the one that outputs lead to.
///
/// The first request for an operation comes before anything else, and the other outputs
/// beside it are dropped. Without one, a request for a poll comes first. Otherwise what is
/// asked of the transport is done. After a poll only messages are sent, and only while there
/// is a connection.
pub open spec fn is_step(
    step: Step,
    phase: Phase,
    outputs: Seq<NetworkOutput>,
    is_connected: bool,
) -> bool {
    match phase {
        Phase::Event => {
            &&& step.messages@.len() == 0
            &&& if has_no_request(outputs) {
                if needs_poll(outputs) {
                    &&& step.directive == Directive::Tick
                    &&& step.phase == Phase::Poll { iteration: 0 }
                } else if are_encodable(outputs) {
                    step.directive matches Directive::Perform(actions) && perform_all(
                        actions@,
                        outputs,
                    )
                } else {
                    step.directive == Directive::Fail(NetworkError::EncodeFailed)
                }
            } else {
                &&& step.directive matches Directive::Execute(i)
                &&& is_first_request(outputs, i as int)
                &&& step.phase == Phase::Event
            }
        },
        Phase::Poll { iteration } => {
            &&& step.messages@.len() == 0
            &&& if has_no_request(outputs) {
                is_after_poll(step, iteration, needs_poll(outputs))
            } else {
                &&& step.directive matches Directive::Execute(i)
                &&& is_first_request(outputs, i as int)
                &&& step.phase == Phase::PollCrypto { iteration, needs_poll: needs_poll(outputs) }
            }
        },
        Phase::PollCrypto { iteration, needs_poll: needed } => {
            let (messages, stop) = messages_of(outputs, false);
            if !is_connected {
                &&& step.messages@.len() == 0
                &&& is_after_poll(step, iteration, needed || needs_poll(outputs))
            } else {
                &&& contents_of(step.messages@) == messages
                &&& match stop {
                    Some(_) => step.directive == Directive::Fail(NetworkError::EncodeFailed),
                    None => is_after_poll(step, iteration, needed || needs_poll(outputs)),
                }
            }
        },
    }
}

/// How many polls are left, before the outputs of a phase are seen.
pub open spec fn polls_left(phase: Phase) -> nat {
    let used: int = match phase {
        Phase::Event => 0,
        Phase::Poll { iteration } => iteration + 1,
        Phase::PollCrypto { iteration, .. } => iteration + 1,
    };
    if used < MAX_POLL_ITERATIONS {
        (MAX_POLL_ITERATIONS - used) as nat
    } else {
        0
    }
}

fn after_poll(messages: Vec<Vec<u8>>, iteration: u32, again: bool) -> (step: Step)
    ensures
        step.messages == messages,
        is_after_poll(step, iteration, again),
{
    if again && iteration < MAX_POLL_ITERATIONS - 1 {
        Step {
            messages,
            directive: Directive::Tick,
            phase: Phase::Poll { iteration: iteration + 1 },
        }
    } else {
        Step { messages, directive: Directive::Done, phase: Phase::Event }
    }
}

/// The step that outputs lead to. Every tick leaves one poll less.
pub fn next_step(phase: Phase, outputs: &[NetworkOutput], is_connected: bool) -> (step: Step)
    ensures
        is_step(step, phase, outputs@, is_connected),
        step.directive is Tick ==> polls_left(step.phase) < polls_left(phase),
{
    let request: Option<usize> = find_request(outputs);
    let again: bool = asks_for_poll(outputs);
    let none: Vec<Vec<u8>> = Vec::new();
    match phase {
        Phase::Event => match request {
            Some(i) => Step { messages: none, directive: Directive::Execute(i), phase: Phase::Event },
            None => {
                if again {
                    Step {
                        messages: none,
                        directive: Directive::Tick,
                        phase: Phase::Poll { iteration: 0 },
                    }
                } else {
                    let directive = match pending_actions(outputs) {
                        Ok(actions) => Directive::Perform(actions),
                        Err(e) => Directive::Fail(e),
                    };
                    Step { messages: none, directive, phase: Phase::Event }
                }
            },
        },
        Phase::Poll { iteration } => match request {
            Some(i) => Step {
                messages: none,
                directive: Directive::Execute(i),
                phase: Phase::PollCrypto { iteration, needs_poll: again },
            },
            None => after_poll(none, iteration, again),
        },
        Phase::PollCrypto { iteration, needs_poll: needed } => {
            if !is_connected {
                return after_poll(none, iteration, needed || again);
            }
            let (messages, stop) = collect_messages(outputs, false);
            match stop {
                Some(_) => Step {
                    messages,
                    directive: Directive::Fail(NetworkError::EncodeFailed),
                    phase: Phase::Event,
                },
                None => after_poll(messages, iteration, needed || again),
            }
        },
    }
}

} // verus!
