//! How the side that accepted a connection drives its state machine.
use crate::network::NetworkOutput;
use crate::transport::outputs::{
    asks_for_poll, collect_messages, contents_of, find_request, has_no_request, is_first_request,
    messages_of, needs_poll, Stop,
};
use vstd::prelude::*;

verus! {

/// Where the outputs come from.
#[derive(Debug, Clone, Copy, PartialEq, Eq, Structural)]
pub enum ServerPhase {
    /// From data of the peer, or from the result of an operation that it led to.
    Data,
    /// From the poll that data of the peer led to.
    Poll,
}

/// What follows.
#[derive(Debug, Clone, Copy, PartialEq, Eq, Structural)]
pub enum ServerDirective {
    /// Carry out the operation that the output at this place asks for, and feed the result.
    Execute(usize),
    /// Feed a tick, and hand in its outputs as those of a poll.
    Tick,
    /// The data is done with.
    Done,
    /// The authentication is over.
    Fail(Stop),
}

/// A step.
#[derive(Debug, Clone)]
pub struct ServerStep {
    /// The messages to send first.
    pub messages: Vec<Vec<u8>>,
    pub directive: ServerDirective,
}

/// Whether a step is the one that outputs lead to: the messages go out, and then an
/// operation is carried out, if one is asked for, or the state machine is polled once, if it
/// asks for that. A failed authentication ends it where no operation is asked for.
pub open spec fn is_server_step(
    step: ServerStep,
    phase: ServerPhase,
    outputs: Seq<NetworkOutput>,
) -> bool {
    let watches = phase == ServerPhase::Data && has_no_request(outputs);
    let (messages, stop) = messages_of(outputs, watches);
    &&& contents_of(step.messages@) == messages
    &&& match stop {
        Some(stop) => step.directive == ServerDirective::Fail(stop),
        None => if phase == ServerPhase::Poll {
            step.directive == ServerDirective::Done
        } else if !has_no_request(outputs) {
            step.directive matches ServerDirective::Execute(i) && is_first_request(
                outputs,
                i as int,
            )
        } else if needs_poll(outputs) {
            step.directive == ServerDirective::Tick
        } else {
            step.directive == ServerDirective::Done
        },
    }
}

/// The step that outputs lead to.
pub fn next_server_step(phase: ServerPhase, outputs: &[NetworkOutput]) -> (step: ServerStep)
    ensures
        is_server_step(step, phase, outputs@),
{
    let request: Option<usize> = match phase {
        ServerPhase::Data => find_request(outputs),
        ServerPhase::Poll => None,
    };
    let watches: bool = phase == ServerPhase::Data && request.is_none();
    let (messages, stop) = collect_messages(outputs, watches);
    let directive: ServerDirective = match stop {
        Some(stop) => ServerDirective::Fail(stop),
        None => match phase {
            ServerPhase::Poll => ServerDirective::Done,
            ServerPhase::Data => match request {
                Some(i) => ServerDirective::Execute(i),
                None => if asks_for_poll(outputs) {
                    ServerDirective::Tick
                } else {
                    ServerDirective::Done
                },
            },
        },
    };
    ServerStep { messages, directive }
}

} // verus!
