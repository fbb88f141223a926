//! Setting up an authentication, and what the transport feeds it with.
use crate::network::crypto_data::{CryptoData, CryptoModel, MAX_PSK_LEN, MAX_TOKEN_LEN};
use crate::network::{NetworkError, NetworkInput};
use vstd::prelude::*;

verus! {

/// The bytes of an optional token; without a token there are none.
pub open spec fn token_bytes(token: Option<&[u8]>) -> Seq<u8> {
    match token {
        Some(token) => token@,
        None => Seq::empty(),
    }
}

/// Prepares the side that connects: it is the initiator, and both certificates are known.
pub fn prepare_client(
    crypto_data: &mut CryptoData,
    local_fingerprint: &[u8; 32],
    peer_fingerprint: &[u8; 32],
) -> (r: Result<(), NetworkError>)
    ensures
        r is Ok,
        final(crypto_data)@ == (CryptoModel {
            my_fingerprint: local_fingerprint@,
            peer_fingerprint: peer_fingerprint@,
            is_responder: false,
            ..old(crypto_data)@
        }),
        final(crypto_data).my_fingerprint@ == local_fingerprint@,
        final(crypto_data).peer_fingerprint@ == peer_fingerprint@,
        !final(crypto_data).is_responder,
        final(crypto_data).psk@ == old(crypto_data).psk@,
        final(crypto_data).auth_token@ == old(crypto_data).auth_token@,
{
    match crypto_data.set_my_fingerprint(local_fingerprint.as_slice()) {
        Ok(()) => {},
        Err(e) => return Err(e),
    }
    match crypto_data.set_peer_fingerprint(peer_fingerprint.as_slice()) {
        Ok(()) => {},
        Err(e) => return Err(e),
    }
    crypto_data.set_role(false);
    Ok(())
}

/// Prepares the side that accepts a connection: it is the responder, it knows both
/// certificates, and it may have advertised a token.
pub fn prepare_server(
    psk: &[u8],
    local_fingerprint: &[u8; 32],
    peer_fingerprint: &[u8; 32],
    auth_token: Option<&[u8]>,
) -> (r: Result<CryptoData, NetworkError>)
    ensures
        if psk@.len() > MAX_PSK_LEN || token_bytes(auth_token).len() > MAX_TOKEN_LEN {
            r matches Err(e) && e == NetworkError::BufferFull
        } else {
            r matches Ok(data) && data@ == (CryptoModel {
                psk: psk@,
                auth_token: token_bytes(auth_token),
                is_responder: true,
                spake2_public: Seq::empty(),
                our_handshake_msg: Seq::empty(),
                peer_handshake_msg: Seq::empty(),
                peer_public_temp: Seq::empty(),
                transcript: Seq::empty(),
                my_fingerprint: local_fingerprint@,
                peer_fingerprint: peer_fingerprint@,
            })
        },
        r is Ok <==> psk@.len() <= 256 && (auth_token matches Some(token) ==> token@.len() <= 256),
        r matches Ok(data) ==> {
            &&& data.psk@ == psk@
            &&& data.is_responder
            &&& data.my_fingerprint@ == local_fingerprint@
            &&& data.peer_fingerprint@ == peer_fingerprint@
            &&& auth_token matches Some(token) ==> data.auth_token@ == token@
            &&& auth_token is None ==> data.auth_token@.len() == 0
        },
{
    let mut data = CryptoData::new();
    match data.set_psk(psk) {
        Ok(()) => {},
        Err(e) => return Err(e),
    }
    match data.set_my_fingerprint(local_fingerprint.as_slice()) {
        Ok(()) => {},
        Err(e) => return Err(e),
    }
    match data.set_peer_fingerprint(peer_fingerprint.as_slice()) {
        Ok(()) => {},
        Err(e) => return Err(e),
    }
    data.set_role(true);
    match auth_token {
        Some(token) => match data.set_auth_token(token) {
            Ok(()) => {},
            Err(e) => return Err(e),
        },
        None => {},
    }
    Ok(data)
}

/// What the transport reports while an authentication runs.
#[derive(Debug, Clone)]
pub enum TransportEvent {
    /// A stream of the peer came to its end with this data.
    Data(Vec<u8>),
    /// The wait is over.
    TimerElapsed,
    /// The connection is lost.
    Disconnected,
}

/// What is fed to the state machine.
pub enum Feed<'a> {
    /// This input.
    Input(NetworkInput<'a>),
    /// Nothing; the wait goes on.
    Nothing,
    /// The authentication ends without success.
    Lost,
}

/// Whether a feed is the data of a stream, as that of the first stream.
pub open spec fn is_data(feed: Feed, data: Seq<u8>) -> bool {
    &&& feed matches Feed::Input(input)
    &&& input matches NetworkInput::DataReceived(stream, bytes)
    &&& stream == 0
    &&& bytes@ == data
}

/// Whether a feed is a tick.
pub open spec fn is_tick(feed: Feed) -> bool {
    feed matches Feed::Input(input) && input == NetworkInput::Tick(0)
}

/// Whether a feed is what the side that connects makes of an event.
pub open spec fn is_client_feed(event: TransportEvent, feed: Feed) -> bool {
    match event {
        TransportEvent::Data(data) => is_data(feed, data@),
        TransportEvent::TimerElapsed => is_tick(feed),
        TransportEvent::Disconnected => feed is Lost,
    }
}

/// Whether a feed is what the side that accepted a connection makes of an event.
pub open spec fn is_server_feed(event: TransportEvent, feed: Feed) -> bool {
    match event {
        TransportEvent::Data(data) => if data@.len() == 0 {
            feed is Nothing
        } else {
            is_data(feed, data@)
        },
        TransportEvent::TimerElapsed => is_tick(feed),
        TransportEvent::Disconnected => feed is Lost,
    }
}

/// What the side that connects feeds to its state machine.
pub fn client_feed<'a>(event: &'a TransportEvent) -> (r: Feed<'a>)
    ensures
        match *event {
            TransportEvent::Data(data) => is_data(r, data@),
            TransportEvent::TimerElapsed => is_tick(r),
            TransportEvent::Disconnected => r is Lost,
        },
        is_client_feed(*event, r),
{
    match event {
        TransportEvent::Data(data) => Feed::Input(NetworkInput::DataReceived(0, data.as_slice())),
        TransportEvent::TimerElapsed => Feed::Input(NetworkInput::Tick(0)),
        TransportEvent::Disconnected => Feed::Lost,
    }
}

/// What the side that accepted a connection feeds to its state machine: a stream without
/// data is passed over.
pub fn server_feed<'a>(event: &'a TransportEvent) -> (r: Feed<'a>)
    ensures
        match *event {
            TransportEvent::Data(data) => if data@.len() == 0 {
                r is Nothing
            } else {
                is_data(r, data@)
            },
            TransportEvent::TimerElapsed => is_tick(r),
            TransportEvent::Disconnected => r is Lost,
        },
        is_server_feed(*event, r),
{
    match event {
        TransportEvent::Data(data) => if data.len() == 0 {
            Feed::Nothing
        } else {
            Feed::Input(NetworkInput::DataReceived(0, data.as_slice()))
        },
        TransportEvent::TimerElapsed => Feed::Input(NetworkInput::Tick(0)),
        TransportEvent::Disconnected => Feed::Lost,
    }
}

/// How an authentication goes on.
#[derive(Debug, Clone, Copy, PartialEq, Eq, Structural)]
pub enum Turn {
    /// It has ended, and the peer is authenticated.
    Authenticated,
    /// It has ended without success.
    Lost,
    /// It goes on.
    Continue,
}

/// How an authentication goes on.
pub open spec fn turn_after(is_authenticated: bool, feed: Feed) -> Turn {
    if is_authenticated {
        Turn::Authenticated
    } else if feed is Lost {
        Turn::Lost
    } else {
        Turn::Continue
    }
}

/// How an authentication goes on with what is to be fed next. It ends with success exactly
/// when the state machine has authenticated the peer, and without success when the connection
/// is lost before that.
pub fn after_turn(is_authenticated: bool, feed: &Feed) -> (r: Turn)
    ensures
        r == if is_authenticated {
            Turn::Authenticated
        } else if *feed is Lost {
            Turn::Lost
        } else {
            Turn::Continue
        },
        r == turn_after(is_authenticated, *feed),
{
    if is_authenticated {
        return Turn::Authenticated;
    }
    match feed {
        Feed::Lost => Turn::Lost,
        _ => Turn::Continue,
    }
}

} // verus!
