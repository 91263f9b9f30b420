//! Errors of the packet manager. Each one carries the kind of failure, which
//! the contracts speak of, and can describe itself in words.

use vstd::prelude::*;

verus! {

/// Misuse of the type registry.
#[derive(Debug, Clone, Copy, PartialEq, Eq, Structural)]
pub enum RegistrationError {
    /// The type was already registered in that direction.
    DuplicateRegistration,
    /// The type was never registered in that direction.
    NotRegistered,
    /// No incoming stream was negotiated for the channel the type would get.
    StreamNotReady,
    /// Every channel id of that direction is taken.
    ChannelIdsExhausted,
}

/// What went wrong while a connection was set up.
#[derive(Debug, Clone, Copy, PartialEq, Eq, Structural)]
pub enum ConnectionErrorKind {
    /// The transport failed to accept, dial, open a stream or exchange a token.
    Transport,
    /// A peer with the same address is already connected.
    DuplicatePeer,
    /// A stream announced a channel id that was not negotiated.
    UnexpectedChannel,
    /// Two streams announced the same channel id.
    DuplicateChannel,
}

/// A connection could not be set up.
#[derive(Debug, Clone, Copy, PartialEq, Eq, Structural)]
pub struct ConnectionError {
    pub kind: ConnectionErrorKind,
}

/// Why a receive call failed.
#[derive(Debug, Clone, Copy, PartialEq, Eq, Structural)]
pub enum ReceiveErrorKind {
    /// More than one peer is connected: the call must name which.
    MoreThanOneRemote,
    /// The type was never registered for receiving.
    NotRegistered,
    /// The stream behind the channel was closed.
    ChannelClosed,
    /// A frame held no bytes.
    EmptyFrame,
    /// A frame could not be decoded into the packet type.
    Decode,
}

/// A receive call failed.
#[derive(Debug, Clone, Copy, PartialEq, Eq, Structural)]
pub struct ReceiveError {
    pub kind: ReceiveErrorKind,
}

/// Why a send call failed.
#[derive(Debug, Clone, Copy, PartialEq, Eq, Structural)]
pub enum SendErrorKind {
    /// More than one peer is connected: the call must name which, or broadcast.
    MoreThanOneRemote,
    /// The type was never registered for sending.
    NotRegistered,
    /// No connected peer has that address.
    UnknownPeer,
    /// Writing to the stream failed.
    Write,
}

/// A send call failed.
#[derive(Debug, Clone, Copy, PartialEq, Eq, Structural)]
pub struct SendError {
    pub kind: SendErrorKind,
}

impl ConnectionError {
    pub fn new(kind: ConnectionErrorKind) -> (r: ConnectionError)
        ensures
            r.kind == kind,
    {
        ConnectionError { kind }
    }

    /// The error in words.
    pub fn message(&self) -> String {
        match self.kind {
            ConnectionErrorKind::Transport => "transport failure while connecting".to_string(),
            ConnectionErrorKind::DuplicatePeer => "a client with this address was already connected".to_string(),
            ConnectionErrorKind::UnexpectedChannel => "a stream announced a channel id that was not negotiated".to_string(),
            ConnectionErrorKind::DuplicateChannel => "two streams announced the same channel id".to_string(),
        }
    }
}

impl ReceiveError {
    pub fn new(kind: ReceiveErrorKind) -> (r: ReceiveError)
        ensures
            r.kind == kind,
    {
        ReceiveError { kind }
    }

    /// The error in words.
    pub fn message(&self) -> String {
        match self.kind {
            ReceiveErrorKind::MoreThanOneRemote => "received() was called but there is more than one client; use received_all()".to_string(),
            ReceiveErrorKind::NotRegistered => "type was never registered; call register_receive_packet() first".to_string(),
            ReceiveErrorKind::ChannelClosed => "receive channel was closed".to_string(),
            ReceiveErrorKind::EmptyFrame => "received empty bytes for a packet".to_string(),
            ReceiveErrorKind::Decode => "could not decode a received packet".to_string(),
        }
    }
}

impl SendError {
    pub fn new(kind: SendErrorKind) -> (r: SendError)
        ensures
            r.kind == kind,
    {
        SendError { kind }
    }

    /// The error in words.
    pub fn message(&self) -> String {
        match self.kind {
            SendErrorKind::MoreThanOneRemote => "send() was called but there is more than one client; use broadcast() or send_to()".to_string(),
            SendErrorKind::NotRegistered => "type was never registered; call register_send_packet() first".to_string(),
            SendErrorKind::UnknownPeer => "no client is connected with that address".to_string(),
            SendErrorKind::Write => "writing to the stream failed".to_string(),
        }
    }
}

impl RegistrationError {
    /// The error in words.
    pub fn message(&self) -> String {
        match self {
            RegistrationError::DuplicateRegistration => "type was already registered".to_string(),
            RegistrationError::NotRegistered => "type was never registered".to_string(),
            RegistrationError::StreamNotReady => "no incoming stream is ready for this type; initialise the connection first".to_string(),
            RegistrationError::ChannelIdsExhausted => "no channel id is left for another packet type".to_string(),
        }
    }
}

} // verus!
