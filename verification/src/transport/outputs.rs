//! What the outputs of the network layer ask of a transport.
use crate::network::messages::{encode_network_message, NetworkMessage, MAX_MESSAGE_SIZE};
use crate::network::{NetworkError, NetworkEvent, NetworkOutput};
use crate::transport::laws::{
    events_are_told, events_asked, events_told, sends_are_done, sends_asked, sends_done,
};
use vstd::prelude::*;

verus! {

/// Whether the output at `i` is the first that asks for a cryptographic operation.
pub open spec fn is_first_request(outputs: Seq<NetworkOutput>, i: int) -> bool {
    &&& 0 <= i < outputs.len()
    &&& outputs[i] is RequestCrypto
    &&& forall|j: int| 0 <= j < i ==> !(#[trigger] outputs[j] is RequestCrypto)
}

/// Whether no output asks for a cryptographic operation.
pub open spec fn has_no_request(outputs: Seq<NetworkOutput>) -> bool {
    forall|j: int| 0 <= j < outputs.len() ==> !(#[trigger] outputs[j] is RequestCrypto)
}

/// Whether an output asks for another call.
pub open spec fn needs_poll(outputs: Seq<NetworkOutput>) -> bool {
    exists|j: int| 0 <= j < outputs.len() && #[trigger] outputs[j] is NeedsPoll
}

/// The first output that asks for a cryptographic operation.
pub fn find_request(outputs: &[NetworkOutput]) -> (r: Option<usize>)
    ensures
        match r {
            Some(i) => is_first_request(outputs@, i as int),
            None => has_no_request(outputs@),
        },
{
    let mut i: usize = 0;
    while i < outputs.len()
        invariant
            i <= outputs@.len(),
            forall|j: int| 0 <= j < i ==> !(#[trigger] outputs@[j] is RequestCrypto),
        decreases outputs.len() - i,
    {
        if matches!(outputs[i], NetworkOutput::RequestCrypto(_)) {
            return Some(i);
        }
        i = i + 1;
    }
    None
}

/// Whether an output asks for another call.
pub fn asks_for_poll(outputs: &[NetworkOutput]) -> (r: bool)
    ensures
        r == needs_poll(outputs@),
{
    let mut i: usize = 0;
    while i < outputs.len()
        invariant
            i <= outputs@.len(),
            forall|j: int| 0 <= j < i ==> !(#[trigger] outputs@[j] is NeedsPoll),
        decreases outputs.len() - i,
    {
        if matches!(outputs[i], NetworkOutput::NeedsPoll) {
            proof {
                assert(outputs@[i as int] is NeedsPoll);
            }
            return true;
        }
        i = i + 1;
    }
    false
}

/// Why the messages of some outputs are not all sent.
#[derive(Debug, Clone, Copy, PartialEq, Eq, Structural)]
pub enum Stop {
    /// A message could not be encoded.
    EncodeFailed,
    /// The authentication failed.
    AuthenticationFailed(NetworkError),
}

/// The messages to send, in order, up to the first one that is too long or, for a side that
/// watches for it, up to a failed authentication.
pub open spec fn messages_of(outputs: Seq<NetworkOutput>, watches: bool) -> (
    Seq<Seq<u8>>,
    Option<Stop>,
)
    decreases outputs.len(),
{
    if outputs.len() == 0 {
        (Seq::empty(), None)
    } else {
        let (messages, stop) = messages_of(outputs.skip(1), watches);
        match outputs[0] {
            NetworkOutput::SendMessage(message) => if message.bytes().len() > MAX_MESSAGE_SIZE {
                (Seq::empty(), Some(Stop::EncodeFailed))
            } else {
                (seq![message.bytes()] + messages, stop)
            },
            NetworkOutput::Event(NetworkEvent::AuthenticationFailed(e)) => if watches {
                (Seq::empty(), Some(Stop::AuthenticationFailed(e)))
            } else {
                (messages, stop)
            },
            _ => (messages, stop),
        }
    }
}

/// The contents of some buffers.
pub open spec fn contents_of(buffers: Seq<Vec<u8>>) -> Seq<Seq<u8>> {
    buffers.map_values(|buffer: Vec<u8>| buffer@)
}

/// The bytes of a message, if they fit.
fn encoded(message: &NetworkMessage) -> (r: Option<Vec<u8>>)
    ensures
        match r {
            Some(bytes) => bytes@ == message.bytes() && message.bytes().len() <= MAX_MESSAGE_SIZE,
            None => message.bytes().len() > MAX_MESSAGE_SIZE,
        },
{
    match encode_network_message(message) {
        Ok(buffer) => {
            let mut bytes: Vec<u8> = Vec::new();
            bytes.extend_from_slice(buffer.as_slice());
            proof {
                assert(bytes@ =~= message.bytes());
            }
            Some(bytes)
        },
        Err(_) => None,
    }
}

/// The messages to send, and why they are not all.
pub fn collect_messages(outputs: &[NetworkOutput], watches: bool) -> (r: (
    Vec<Vec<u8>>,
    Option<Stop>,
))
    ensures
        (contents_of(r.0@), r.1) == messages_of(outputs@, watches),
{
    let mut messages: Vec<Vec<u8>> = Vec::new();
    let mut i: usize = 0;
    proof {
        assert(outputs@.skip(0) =~= outputs@);
        assert(contents_of(messages@) + messages_of(outputs@, watches).0 =~= messages_of(
            outputs@,
            watches,
        ).0);
    }
    while i < outputs.len()
        invariant
            i <= outputs@.len(),
            messages_of(outputs@, watches) == (
                contents_of(messages@) + messages_of(outputs@.skip(i as int), watches).0,
                messages_of(outputs@.skip(i as int), watches).1,
            ),
        decreases outputs.len() - i,
    {
        let ghost rest = outputs@.skip(i as int);
        let ghost before = contents_of(messages@);
        proof {
            assert(rest.skip(1) =~= outputs@.skip(i + 1));
            assert(rest[0] == outputs@[i as int]);
            assert(before + Seq::<Seq<u8>>::empty() =~= before);
        }
        match &outputs[i] {
            NetworkOutput::SendMessage(message) => match encoded(message) {
                Some(bytes) => {
                    proof {
                        let after = messages_of(rest.skip(1), watches).0;
                        assert(contents_of(messages@.push(bytes)) =~= before.push(bytes@));
                        assert(before.push(bytes@) + after =~= before + (seq![bytes@] + after));
                    }
                    messages.push(bytes);
                },
                None => return (messages, Some(Stop::EncodeFailed)),
            },
            NetworkOutput::Event(NetworkEvent::AuthenticationFailed(e)) => {
                if watches {
                    return (messages, Some(Stop::AuthenticationFailed(*e)));
                }
            },
            _ => {},
        }
        i = i + 1;
    }
    proof {
        let rest = outputs@.skip(i as int);
        assert(rest.len() == 0);
        assert(contents_of(messages@) + messages_of(rest, watches).0 =~= contents_of(messages@));
    }
    (messages, None)
}

/// Something that a transport does.
#[derive(Debug, Clone)]
pub enum PendingAction {
    /// Send data on a stream of its own.
    SendBytes { data: Vec<u8>, description: &'static str, is_app_data: bool },
    /// Close a stream.
    CloseStream(u64),
    /// Close the connection.
    CloseConnection,
    /// Tell the application.
    Event(NetworkEvent),
}

/// Whether an output asks for an action of a transport, which opens streams as it needs
/// them.
pub open spec fn is_action(output: NetworkOutput) -> bool {
    match output {
        NetworkOutput::SendMessage(_) => true,
        NetworkOutput::SendData { .. } => true,
        NetworkOutput::CloseStream(_) => true,
        NetworkOutput::CloseConnection => true,
        NetworkOutput::Event(_) => true,
        _ => false,
    }
}

/// Whether an action is what an output asks for.
pub open spec fn performs(action: PendingAction, output: NetworkOutput) -> bool {
    match output {
        NetworkOutput::SendMessage(message) => {
            &&& action matches PendingAction::SendBytes { data, description, is_app_data }
            &&& data@ == message.bytes()
            &&& description@ == message.name_text()
            &&& !is_app_data
        },
        NetworkOutput::SendData { data: content } => {
            &&& action matches PendingAction::SendBytes { data, description, is_app_data }
            &&& data@ == content@
            &&& description@ == "raw app data"@
            &&& is_app_data
        },
        NetworkOutput::CloseStream(id) => action == PendingAction::CloseStream(id),
        NetworkOutput::CloseConnection => action == PendingAction::CloseConnection,
        NetworkOutput::Event(event) => action == PendingAction::Event(event),
        _ => false,
    }
}

/// Whether these are the actions that outputs ask for, in order.
pub open spec fn perform_all(actions: Seq<PendingAction>, outputs: Seq<NetworkOutput>) -> bool {
    let wanted = outputs.filter(|output: NetworkOutput| is_action(output));
    &&& actions.len() == wanted.len()
    &&& forall|k: int| 0 <= k < actions.len() ==> performs(#[trigger] actions[k], wanted[k])
}

/// Whether every message can be encoded.
pub open spec fn are_encodable(outputs: Seq<NetworkOutput>) -> bool {
    forall|j: int|
        0 <= j < outputs.len() ==> (#[trigger] outputs[j] matches NetworkOutput::SendMessage(
            message,
        ) ==> message.bytes().len() <= MAX_MESSAGE_SIZE)
}

/// What the outputs ask of a transport. If a message cannot be encoded, nothing is done.
pub fn pending_actions(outputs: &[NetworkOutput]) -> (r: Result<Vec<PendingAction>, NetworkError>)
    ensures
        match r {
            Ok(actions) => are_encodable(outputs@) && perform_all(actions@, outputs@) && events_told(
                actions@,
            ) == events_asked(outputs@) && sends_done(actions@) == sends_asked(outputs@),
            Err(e) => !are_encodable(outputs@) && e == NetworkError::EncodeFailed,
        },
{
    let mut actions: Vec<PendingAction> = Vec::new();
    let mut i: usize = 0;
    proof {
        assert(outputs@.take(0) =~= Seq::empty());
    }
    while i < outputs.len()
        invariant
            i <= outputs@.len(),
            are_encodable(outputs@.take(i as int)),
            perform_all(actions@, outputs@.take(i as int)),
        decreases outputs.len() - i,
    {
        let ghost wants = |output: NetworkOutput| is_action(output);
        let ghost before = outputs@.take(i as int);
        let ghost done = actions@;
        proof {
            assert(outputs@.take(i + 1) =~= before.push(outputs@[i as int]));
            reveal(Seq::filter);
            assert(before.push(outputs@[i as int]).drop_last() =~= before);
        }
        let action: Option<PendingAction> = match &outputs[i] {
            NetworkOutput::SendMessage(message) => match encoded(message) {
                Some(data) => Some(
                    PendingAction::SendBytes {
                        data,
                        description: message.name(),
                        is_app_data: false,
                    },
                ),
                None => {
                    proof {
                        assert(outputs@[i as int] is SendMessage);
                    }
                    return Err(NetworkError::EncodeFailed);
                },
            },
            NetworkOutput::SendData { data: content } => {
                let mut data: Vec<u8> = Vec::new();
                data.extend_from_slice(content);
                proof {
                    assert(data@ =~= content@);
                }
                Some(
                    PendingAction::SendBytes {
                        data,
                        description: "raw app data",
                        is_app_data: true,
                    },
                )
            },
            NetworkOutput::CloseStream(id) => Some(PendingAction::CloseStream(*id)),
            NetworkOutput::CloseConnection => Some(PendingAction::CloseConnection),
            NetworkOutput::Event(event) => Some(PendingAction::Event(*event)),
            _ => None,
        };
        match action {
            Some(action) => actions.push(action),
            None => {},
        }
        proof {
            let after = outputs@.take(i + 1);
            assert forall|j: int| 0 <= j < after.len() implies (#[trigger] after[j] matches NetworkOutput::SendMessage(
                message,
            ) ==> message.bytes().len() <= MAX_MESSAGE_SIZE) by {
                if j < i {
                    assert(before[j] == after[j]);
                }
            }
        }
        i = i + 1;
    }
    proof {
        assert(outputs@.take(i as int) =~= outputs@);
        events_are_told(actions@, outputs@);
        sends_are_done(actions@, outputs@);
    }
    Ok(actions)
}

} // verus!
