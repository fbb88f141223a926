//! What a transport is made to do with the outputs of the network layer.
use crate::cert::x509::certificate_fields;
use crate::crypto::primitive::sha256;
use crate::encoding::hex::hex_text;
use crate::network::messages::NetworkMessage;
use crate::network::{NetworkError, NetworkEvent, NetworkInput, NetworkOutput};
use crate::transport::client::{is_step, polls_left, Directive, Phase, Step};
use crate::transport::fingerprint_verifier::complaint;
use crate::transport::outputs::{
    are_encodable, contents_of, is_action, messages_of, perform_all, PendingAction, Stop,
};
use crate::transport::server::{is_server_step, ServerDirective, ServerPhase, ServerStep};
use crate::transport::session::{
    is_client_feed, is_data, is_server_feed, is_tick, turn_after, Feed, TransportEvent, Turn,
};
use vstd::prelude::*;

verus! {

// ---- Actions ----

/// The number of outputs before the one at `i` that ask for an action. A transport opens
/// streams as it needs them, and operations and polls are no actions.
pub open spec fn actions_before(outputs: Seq<NetworkOutput>, i: int) -> int
    decreases i,
{
    if i <= 0 {
        0
    } else {
        actions_before(outputs, i - 1) + if outputs[i - 1] is OpenUniStream
            || outputs[i - 1] is RequestCrypto || outputs[i - 1] is NeedsPoll {
            0int
        } else {
            1
        }
    }
}

/// The events among outputs, in order.
pub open spec fn events_asked(outputs: Seq<NetworkOutput>) -> Seq<NetworkEvent>
    decreases outputs.len(),
{
    if outputs.len() == 0 {
        Seq::empty()
    } else {
        let before = events_asked(outputs.drop_last());
        match outputs.last() {
            NetworkOutput::Event(event) => before.push(event),
            _ => before,
        }
    }
}

/// The events among actions, in order.
pub open spec fn events_told(actions: Seq<PendingAction>) -> Seq<NetworkEvent>
    decreases actions.len(),
{
    if actions.len() == 0 {
        Seq::empty()
    } else {
        let before = events_told(actions.drop_last());
        match actions.last() {
            PendingAction::Event(event) => before.push(event),
            _ => before,
        }
    }
}

/// What outputs send, in order: the bytes, and whether they are data of the application.
pub open spec fn sends_asked(outputs: Seq<NetworkOutput>) -> Seq<(Seq<u8>, bool)>
    decreases outputs.len(),
{
    if outputs.len() == 0 {
        Seq::empty()
    } else {
        let before = sends_asked(outputs.drop_last());
        match outputs.last() {
            NetworkOutput::SendMessage(message) => before.push((message.bytes(), false)),
            NetworkOutput::SendData { data } => before.push((data@, true)),
            _ => before,
        }
    }
}

/// What actions send, in order.
pub open spec fn sends_done(actions: Seq<PendingAction>) -> Seq<(Seq<u8>, bool)>
    decreases actions.len(),
{
    if actions.len() == 0 {
        Seq::empty()
    } else {
        let before = sends_done(actions.drop_last());
        match actions.last() {
            PendingAction::SendBytes { data, is_app_data, .. } => before.push((data@, is_app_data)),
            _ => before,
        }
    }
}

/// The outputs but for the last are performed by the actions but for the last, if the last
/// output is one, or else by the same actions.
proof fn lemma_last_action(actions: Seq<PendingAction>, outputs: Seq<NetworkOutput>)
    requires
        outputs.len() > 0,
        perform_all(actions, outputs),
    ensures
        is_action(outputs.last()) ==> actions.len() > 0 && perform_all(
            actions.drop_last(),
            outputs.drop_last(),
        ) && crate::transport::outputs::performs(actions.last(), outputs.last()),
        !is_action(outputs.last()) ==> perform_all(actions, outputs.drop_last()),
{
    reveal(Seq::filter);
    let wants = |output: NetworkOutput| is_action(output);
    let wanted = outputs.filter(wants);
    let before = outputs.drop_last().filter(wants);
    if is_action(outputs.last()) {
        assert(wanted == before.push(outputs.last()));
        assert forall|k: int| 0 <= k < actions.len() - 1 implies crate::transport::outputs::performs(
            #[trigger] actions.drop_last()[k],
            before[k],
        ) by {
            assert(actions.drop_last()[k] == actions[k]);
            assert(wanted[k] == before[k]);
        }
        assert(wanted[actions.len() - 1] == outputs.last());
        assert(crate::transport::outputs::performs(actions[actions.len() - 1], outputs.last()));
    } else {
        assert(wanted == before);
    }
}

/// Every event among the outputs, whichever it is, is told once, and in order.
pub proof fn events_are_told(actions: Seq<PendingAction>, outputs: Seq<NetworkOutput>)
    requires
        perform_all(actions, outputs),
    ensures
        events_told(actions) == events_asked(outputs),
    decreases outputs.len(),
{
    if outputs.len() > 0 {
        lemma_last_action(actions, outputs);
        if is_action(outputs.last()) {
            events_are_told(actions.drop_last(), outputs.drop_last());
        } else {
            events_are_told(actions, outputs.drop_last());
        }
    } else {
        reveal(Seq::filter);
    }
}

/// Every message and all data among the outputs is sent once, byte for byte and in order.
pub proof fn sends_are_done(actions: Seq<PendingAction>, outputs: Seq<NetworkOutput>)
    requires
        perform_all(actions, outputs),
    ensures
        sends_done(actions) == sends_asked(outputs),
    decreases outputs.len(),
{
    if outputs.len() > 0 {
        lemma_last_action(actions, outputs);
        if is_action(outputs.last()) {
            sends_are_done(actions.drop_last(), outputs.drop_last());
        } else {
            sends_are_done(actions, outputs.drop_last());
        }
    } else {
        reveal(Seq::filter);
    }
}

proof fn lemma_actions_before(outputs: Seq<NetworkOutput>, more: Seq<NetworkOutput>, i: int)
    requires
        i <= outputs.len() <= more.len(),
        forall|k: int| 0 <= k < outputs.len() ==> outputs[k] == #[trigger] more[k],
    ensures
        actions_before(outputs, i) == actions_before(more, i),
    decreases i,
{
    if i > 0 {
        lemma_actions_before(outputs, more, i - 1);
        assert(outputs[i - 1] == more[i - 1]);
    }
}

proof fn lemma_actions_grow(outputs: Seq<NetworkOutput>, i: int, j: int)
    requires
        0 <= i <= j,
    ensures
        0 <= actions_before(outputs, i) <= actions_before(outputs, j),
    decreases j,
{
    if i < j {
        lemma_actions_grow(outputs, i, j - 1);
    } else if i > 0 {
        lemma_actions_grow(outputs, i - 1, i - 1);
    }
}

proof fn lemma_actions_len(actions: Seq<PendingAction>, outputs: Seq<NetworkOutput>)
    requires
        perform_all(actions, outputs),
    ensures
        actions.len() == actions_before(outputs, outputs.len() as int),
    decreases outputs.len(),
{
    if outputs.len() > 0 {
        lemma_last_action(actions, outputs);
        lemma_actions_before(outputs.drop_last(), outputs, outputs.len() - 1);
        if is_action(outputs.last()) {
            lemma_actions_len(actions.drop_last(), outputs.drop_last());
        } else {
            lemma_actions_len(actions, outputs.drop_last());
        }
    } else {
        reveal(Seq::filter);
    }
}

/// What is asked of the transport is done in the order in which it is asked: the output at `i`
/// is performed behind the actions of the outputs before it, and nothing else is done.
pub proof fn actions_are_in_order(
    actions: Seq<PendingAction>,
    outputs: Seq<NetworkOutput>,
    i: int,
)
    requires
        perform_all(actions, outputs),
        0 <= i < outputs.len(),
    ensures
        actions.len() == actions_before(outputs, outputs.len() as int),
        ({
            let at = actions[actions_before(outputs, i)];
            match outputs[i] {
                NetworkOutput::SendMessage(message) => at matches PendingAction::SendBytes {
                    data,
                    description,
                    is_app_data,
                } && data@ == message.bytes() && !is_app_data && description@ == match message {
                    NetworkMessage::AuthCapabilities(_) => "AuthCapabilities"@,
                    NetworkMessage::AuthSpake2Handshake(_) => "AuthSpake2Handshake"@,
                    NetworkMessage::AuthSpake2Confirmation(_) => "AuthSpake2Confirmation"@,
                    NetworkMessage::AuthStatus(_) => "AuthStatus"@,
                },
                NetworkOutput::SendData { data: content } => at matches PendingAction::SendBytes {
                    data,
                    description,
                    is_app_data,
                } && data@ == content@ && is_app_data && description@ == "raw app data"@,
                NetworkOutput::CloseStream(id) => at == PendingAction::CloseStream(id),
                NetworkOutput::CloseConnection => at == PendingAction::CloseConnection,
                NetworkOutput::Event(event) => at == PendingAction::Event(event),
                _ => true,
            }
        }),
        !(outputs[i] is OpenUniStream) && !(outputs[i] is RequestCrypto) && !(
        outputs[i] is NeedsPoll) ==> 0 <= actions_before(outputs, i) < actions.len(),
    decreases outputs.len(),
{
    let n = outputs.len() as int;
    let before = outputs.drop_last();
    lemma_actions_len(actions, outputs);
    lemma_last_action(actions, outputs);
    lemma_actions_grow(outputs, i, n);
    lemma_actions_before(before, outputs, n - 1);
    if i < n - 1 {
        lemma_actions_before(before, outputs, i);
        assert(before[i] == outputs[i]);
        if is_action(outputs.last()) {
            actions_are_in_order(actions.drop_last(), before, i);
        } else {
            actions_are_in_order(actions, before, i);
        }
    } else if is_action(outputs.last()) {
        lemma_actions_len(actions.drop_last(), before);
    }
}

/// Actions are refused only where a message has more than 1024 bytes.
pub proof fn short_messages_are_encodable(outputs: Seq<NetworkOutput>)
    ensures
        are_encodable(outputs) <==> (forall|j: int|
            0 <= j < outputs.len() ==> (#[trigger] outputs[j] matches NetworkOutput::SendMessage(
                message,
            ) ==> message.bytes().len() <= 1024)),
{
}

// ---- Messages ----

/// The bytes of the messages among outputs, in order.
pub open spec fn messages_asked(outputs: Seq<NetworkOutput>) -> Seq<Seq<u8>>
    decreases outputs.len(),
{
    if outputs.len() == 0 {
        Seq::empty()
    } else {
        let before = messages_asked(outputs.drop_last());
        match outputs.last() {
            NetworkOutput::SendMessage(message) => before.push(message.bytes()),
            _ => before,
        }
    }
}

/// Why sending ends with an output, if it does: its message has more than 1024 bytes, or it
/// tells of a failed authentication and the side watches for that.
pub open spec fn end_at(output: NetworkOutput, watches: bool) -> Option<Stop> {
    match output {
        NetworkOutput::SendMessage(message) => if message.bytes().len() > 1024 {
            Some(Stop::EncodeFailed)
        } else {
            None
        },
        NetworkOutput::Event(NetworkEvent::AuthenticationFailed(e)) => if watches {
            Some(Stop::AuthenticationFailed(e))
        } else {
            None
        },
        _ => None,
    }
}

/// The messages of some outputs and of those behind them are the messages of all.
proof fn lemma_messages_asked(first: NetworkOutput, outputs: Seq<NetworkOutput>)
    ensures
        messages_asked(seq![first] + outputs) == messages_asked(seq![first]) + messages_asked(
            outputs,
        ),
    decreases outputs.len(),
{
    let all = seq![first] + outputs;
    if outputs.len() == 0 {
        assert(all =~= seq![first]);
        assert(messages_asked(all) =~= messages_asked(seq![first]) + messages_asked(outputs));
    } else {
        lemma_messages_asked(first, outputs.drop_last());
        assert(all.drop_last() =~= seq![first] + outputs.drop_last());
        assert(messages_asked(all) =~= messages_asked(seq![first]) + messages_asked(outputs));
    }
}

proof fn lemma_one_message(output: NetworkOutput)
    ensures
        messages_asked(seq![output]) == match output {
            NetworkOutput::SendMessage(message) => seq![message.bytes()],
            _ => Seq::<Seq<u8>>::empty(),
        },
{
    reveal_with_fuel(messages_asked, 2);
    assert(seq![output].drop_last() =~= Seq::<NetworkOutput>::empty());
}

/// Messages are sent whole and in order, up to the first output that ends the sending, and that
/// output is the reason why it ends. Without such an output all messages are sent.
pub proof fn messages_are_sent(outputs: Seq<NetworkOutput>, watches: bool, cut: int)
    requires
        0 <= cut <= outputs.len(),
        forall|j: int| 0 <= j < cut ==> end_at(#[trigger] outputs[j], watches) is None,
        cut < outputs.len() ==> end_at(outputs[cut], watches) is Some,
    ensures
        messages_of(outputs, watches).0 == messages_asked(outputs.take(cut)),
        messages_of(outputs, watches).1 == if cut < outputs.len() {
            end_at(outputs[cut], watches)
        } else {
            None
        },
    decreases outputs.len(),
{
    if outputs.len() == 0 {
        assert(outputs.take(cut) =~= Seq::<NetworkOutput>::empty());
    } else if cut == 0 {
        assert(outputs.take(cut) =~= Seq::<NetworkOutput>::empty());
    } else {
        let rest = outputs.skip(1);
        assert forall|j: int| 0 <= j < cut - 1 implies end_at(#[trigger] rest[j], watches) is None by {
            assert(rest[j] == outputs[j + 1]);
        }
        assert(end_at(outputs[0], watches) is None);
        messages_are_sent(rest, watches, cut - 1);
        lemma_messages_asked(outputs[0], rest.take(cut - 1));
        lemma_one_message(outputs[0]);
        assert(outputs.take(cut) =~= seq![outputs[0]] + rest.take(cut - 1));
        assert(messages_of(outputs, watches).0 =~= messages_asked(outputs.take(cut)));
    }
}

// ---- The side that connects ----

/// A request for an operation comes first, whatever else is asked for: the first one is carried
/// out, and nothing is sent before.
pub proof fn operations_come_first(
    step: Step,
    phase: Phase,
    outputs: Seq<NetworkOutput>,
    is_connected: bool,
    k: int,
)
    requires
        is_step(step, phase, outputs, is_connected),
        !(phase is PollCrypto),
        0 <= k < outputs.len(),
        outputs[k] is RequestCrypto,
        forall|j: int| 0 <= j < k ==> !(#[trigger] outputs[j] is RequestCrypto),
    ensures
        step.directive matches Directive::Execute(i) && i == k,
        step.messages@.len() == 0,
        phase is Event ==> step.phase is Event,
        phase matches Phase::Poll { iteration } ==> (step.phase matches Phase::PollCrypto {
            iteration: same,
            needs_poll,
        } && same == iteration && needs_poll == (exists|j: int|
            0 <= j < outputs.len() && #[trigger] outputs[j] is NeedsPoll)),
{
}

/// Without a request for an operation, a request for a poll is followed by one; otherwise all
/// that is asked of the transport is done, or nothing if a message is too long.
pub proof fn inputs_are_done_with(
    step: Step,
    outputs: Seq<NetworkOutput>,
    is_connected: bool,
)
    requires
        is_step(step, Phase::Event, outputs, is_connected),
        forall|j: int| 0 <= j < outputs.len() ==> !(#[trigger] outputs[j] is RequestCrypto),
    ensures
        step.messages@.len() == 0,
        (exists|j: int| 0 <= j < outputs.len() && #[trigger] outputs[j] is NeedsPoll) ==> {
            &&& step.directive is Tick
            &&& step.phase == (Phase::Poll { iteration: 0 })
        },
        (forall|j: int| 0 <= j < outputs.len() ==> !(#[trigger] outputs[j] is NeedsPoll)) ==> {
            &&& are_encodable(outputs) ==> (step.directive matches Directive::Perform(actions)
                && perform_all(actions@, outputs))
            &&& !are_encodable(outputs) ==> step.directive == Directive::Fail(
                NetworkError::EncodeFailed,
            )
        },
{
}

/// A poll is followed by another one as long as one is asked for, and no more than ten follow
/// one input.
pub proof fn polls_end(
    step: Step,
    iteration: u32,
    outputs: Seq<NetworkOutput>,
    is_connected: bool,
)
    requires
        is_step(step, (Phase::Poll { iteration }), outputs, is_connected),
        forall|j: int| 0 <= j < outputs.len() ==> !(#[trigger] outputs[j] is RequestCrypto),
    ensures
        step.messages@.len() == 0,
        step.directive is Tick || step.directive is Done,
        step.directive is Tick <==> iteration < 9 && (exists|j: int|
            0 <= j < outputs.len() && #[trigger] outputs[j] is NeedsPoll),
        step.directive is Tick ==> step.phase == (Phase::Poll { iteration: (iteration + 1) as u32 }),
{
}

/// After the operation of a poll the messages go out, if there is a connection, and the polls
/// go on if the poll or the operation asked for it.
pub proof fn operations_of_polls_end(
    step: Step,
    iteration: u32,
    needed: bool,
    outputs: Seq<NetworkOutput>,
    is_connected: bool,
)
    requires
        is_step(
            step,
            (Phase::PollCrypto { iteration, needs_poll: needed }),
            outputs,
            is_connected,
        ),
        !is_connected || (forall|j: int|
            0 <= j < outputs.len() ==> end_at(#[trigger] outputs[j], false) is None),
    ensures
        contents_of(step.messages@) == if is_connected {
            messages_asked(outputs)
        } else {
            Seq::empty()
        },
        step.directive is Tick || step.directive is Done,
        step.directive is Tick <==> iteration < 9 && (needed || (exists|j: int|
            0 <= j < outputs.len() && #[trigger] outputs[j] is NeedsPoll)),
        step.directive is Tick ==> step.phase == (Phase::Poll { iteration: (iteration + 1) as u32 }),
{
    if is_connected {
        messages_are_sent(outputs, false, outputs.len() as int);
        assert(outputs.take(outputs.len() as int) =~= outputs);
    } else {
        assert(contents_of(step.messages@) =~= Seq::empty());
    }
}

/// A message that is too long ends the input, behind the messages before it.
pub proof fn long_messages_end_polls(
    step: Step,
    iteration: u32,
    needed: bool,
    outputs: Seq<NetworkOutput>,
    cut: int,
)
    requires
        is_step(step, (Phase::PollCrypto { iteration, needs_poll: needed }), outputs, true),
        0 <= cut < outputs.len(),
        forall|j: int| 0 <= j < cut ==> end_at(#[trigger] outputs[j], false) is None,
        end_at(outputs[cut], false) is Some,
    ensures
        step.directive == Directive::Fail(NetworkError::EncodeFailed),
        contents_of(step.messages@) == messages_asked(outputs.take(cut)),
{
    messages_are_sent(outputs, false, cut);
}

/// How many polls one input may lead to.
pub proof fn ten_polls(phase: Phase)
    ensures
        polls_left(Phase::Event) == 10,
        polls_left(phase) <= 10,
{
}

// ---- The side that accepted ----

/// All messages go out, in order; then the first request for an operation is carried out, or
/// else a poll follows where one is asked for.
pub proof fn server_goes_on(
    step: ServerStep,
    outputs: Seq<NetworkOutput>,
)
    requires
        is_server_step(step, ServerPhase::Data, outputs),
        forall|j: int| 0 <= j < outputs.len() ==> end_at(#[trigger] outputs[j], true) is None,
    ensures
        contents_of(step.messages@) == messages_asked(outputs),
        forall|k: int|
            0 <= k < outputs.len() && #[trigger] outputs[k] is RequestCrypto && (forall|j: int|
                0 <= j < k ==> !(#[trigger] outputs[j] is RequestCrypto)) ==> step.directive
                == ServerDirective::Execute(k as usize) || k > usize::MAX,
        (forall|j: int| 0 <= j < outputs.len() ==> !(#[trigger] outputs[j] is RequestCrypto)) ==> {
            &&& (exists|j: int| 0 <= j < outputs.len() && #[trigger] outputs[j] is NeedsPoll)
                ==> step.directive == ServerDirective::Tick
            &&& (forall|j: int| 0 <= j < outputs.len() ==> !(#[trigger] outputs[j] is NeedsPoll))
                ==> step.directive == ServerDirective::Done
        },
{
    let watches = crate::transport::outputs::has_no_request(outputs);
    assert forall|j: int| 0 <= j < outputs.len() implies end_at(
        #[trigger] outputs[j],
        watches,
    ) is None by {
        assert(end_at(outputs[j], true) is None);
    }
    messages_are_sent(outputs, watches, outputs.len() as int);
    assert(outputs.take(outputs.len() as int) =~= outputs);
}

/// A failed authentication is the end, with its reason, where no operation is asked for. What
/// stands before it is sent.
pub proof fn server_sees_failure(
    step: ServerStep,
    outputs: Seq<NetworkOutput>,
    cut: int,
)
    requires
        is_server_step(step, ServerPhase::Data, outputs),
        forall|j: int| 0 <= j < outputs.len() ==> !(#[trigger] outputs[j] is RequestCrypto),
        0 <= cut < outputs.len(),
        forall|j: int| 0 <= j < cut ==> end_at(#[trigger] outputs[j], true) is None,
        end_at(outputs[cut], true) is Some,
    ensures
        step.directive == ServerDirective::Fail(end_at(outputs[cut], true)->Some_0),
        contents_of(step.messages@) == messages_asked(outputs.take(cut)),
{
    messages_are_sent(outputs, true, cut);
}

/// Where an operation is asked for, a failed authentication is not the end yet: the messages go
/// out, in order, and the first request is carried out.
pub proof fn server_carries_out_operations(
    step: ServerStep,
    outputs: Seq<NetworkOutput>,
    k: int,
)
    requires
        is_server_step(step, ServerPhase::Data, outputs),
        0 <= k < outputs.len(),
        outputs[k] is RequestCrypto,
        forall|j: int| 0 <= j < k ==> !(#[trigger] outputs[j] is RequestCrypto),
        forall|j: int| 0 <= j < outputs.len() ==> end_at(#[trigger] outputs[j], false) is None,
    ensures
        contents_of(step.messages@) == messages_asked(outputs),
        step.directive matches ServerDirective::Execute(i) && i == k,
{
    messages_are_sent(outputs, false, outputs.len() as int);
    assert(outputs.take(outputs.len() as int) =~= outputs);
}

/// A message that is too long is the end, behind the messages before it, also where an operation
/// is asked for and after a poll.
pub proof fn long_messages_end_serving(
    step: ServerStep,
    phase: ServerPhase,
    outputs: Seq<NetworkOutput>,
    cut: int,
)
    requires
        is_server_step(step, phase, outputs),
        0 <= cut < outputs.len(),
        forall|j: int| 0 <= j < cut ==> end_at(#[trigger] outputs[j], true) is None,
        outputs[cut] matches NetworkOutput::SendMessage(message) && message.bytes().len() > 1024,
    ensures
        step.directive == ServerDirective::Fail(Stop::EncodeFailed),
        contents_of(step.messages@) == messages_asked(outputs.take(cut)),
{
    let watches = phase == ServerPhase::Data && crate::transport::outputs::has_no_request(outputs);
    assert forall|j: int| 0 <= j < cut implies end_at(#[trigger] outputs[j], watches) is None by {
        assert(end_at(outputs[j], true) is None);
    }
    messages_are_sent(outputs, watches, cut);
}

/// What buffers hold is what is in each of them.
pub proof fn buffers_hold_messages(buffers: Seq<Vec<u8>>)
    ensures
        contents_of(buffers).len() == buffers.len(),
        forall|i: int| 0 <= i < buffers.len() ==> #[trigger] contents_of(buffers)[i] == buffers[i]@,
{
}

/// The messages of a poll go out, and then the data is done with.
pub proof fn server_poll_ends(
    step: ServerStep,
    outputs: Seq<NetworkOutput>,
)
    requires
        is_server_step(step, ServerPhase::Poll, outputs),
        forall|j: int| 0 <= j < outputs.len() ==> end_at(#[trigger] outputs[j], false) is None,
    ensures
        contents_of(step.messages@) == messages_asked(outputs),
        step.directive == ServerDirective::Done,
{
    messages_are_sent(outputs, false, outputs.len() as int);
    assert(outputs.take(outputs.len() as int) =~= outputs);
}

// ---- What is fed ----

/// Data that is fed is that of the first stream, byte for byte, and the timer is fed as a tick
/// at the time zero.
pub proof fn feeds_are_inputs(feed: Feed, data: Seq<u8>)
    ensures
        is_data(feed, data) <==> (feed matches Feed::Input(NetworkInput::DataReceived(stream, bytes))
            && stream == 0 && bytes@ == data),
        is_tick(feed) <==> (feed matches Feed::Input(NetworkInput::Tick(time)) && time == 0),
{
}

/// What comes in on a stream is fed whole by both sides, but for a stream without data, which the
/// side that accepted passes over. Both feed the timer as a tick, and give up without a connection.
pub proof fn events_are_fed(event: TransportEvent, ours: Feed, theirs: Feed)
    requires
        is_client_feed(event, ours),
        is_server_feed(event, theirs),
    ensures
        event matches TransportEvent::Data(data) ==> {
            &&& ours matches Feed::Input(NetworkInput::DataReceived(stream, bytes)) && stream == 0
                && bytes@ == data@
            &&& data@.len() > 0 ==> (theirs matches Feed::Input(
                NetworkInput::DataReceived(stream, bytes),
            ) && stream == 0 && bytes@ == data@)
            &&& data@.len() == 0 ==> theirs is Nothing
        },
        event is TimerElapsed ==> ours == Feed::Input(NetworkInput::Tick(0)) && theirs
            == Feed::Input(NetworkInput::Tick(0)),
        event is Disconnected <==> ours is Lost,
        event is Disconnected <==> theirs is Lost,
{
}

/// An authentication ends with success exactly where the state machine has authenticated the peer,
/// even if the connection is lost then, and without success exactly where it has not and the
/// connection is lost.
pub proof fn authentications_end(is_authenticated: bool, feed: Feed)
    ensures
        turn_after(is_authenticated, feed) == Turn::Authenticated <==> is_authenticated,
        turn_after(is_authenticated, feed) == Turn::Lost <==> !is_authenticated && feed is Lost,
        turn_after(is_authenticated, feed) == Turn::Continue <==> !is_authenticated && !(
        feed is Lost),
{
}

// ---- Certificates ----

/// A certificate passes exactly where the hash of its subject public key info is the fingerprint
/// that is expected. What is said of another names both fingerprints, the expected one first, and
/// what is no certificate does not pass.
pub proof fn only_the_expected_certificate_passes(expected: Seq<u8>, cert_der: Seq<u8>)
    ensures
        complaint(expected, cert_der) is None <==> (certificate_fields(cert_der) matches Ok(fields)
            && sha256(fields.spki) == expected),
        (certificate_fields(cert_der) matches Ok(fields) && sha256(fields.spki) != expected)
            ==> complaint(expected, cert_der) == Some(
            "Certificate fingerprint mismatch: expected "@ + hex_text(expected) + ", got "@
                + hex_text(sha256(certificate_fields(cert_der)->Ok_0.spki)),
        ),
        certificate_fields(cert_der) matches Err(fault) ==> complaint(expected, cert_der) == Some(
            "Fingerprint computation failed: "@ + ("Failed to parse certificate: "@ + fault.shown),
        ),
{
}

} // verus!
