use vstd::prelude::*;

verus! {

/// The error taxonomy of the bridge. Every error raised while handling one
/// inbound message is reported to the caller of the dispatch entry points;
/// none aborts processing of later messages.
#[derive(Clone, Copy, Debug, PartialEq, Eq, Structural)]
pub enum BridgeError {
    /// Malformed OSC bytes: the datagram could not be decoded.
    DecodeError,
    /// Malformed OSC message bytes: the message could not be encoded.
    EncodeError,
    /// Malformed or non-matching OSC address.
    AddressError,
    /// Malformed cue slug: fewer than two tokens.
    ParseError,
    /// A movement command named a cue number that was never registered.
    CueNotFound,
    /// UDP transmission failure while forwarding a planned message.
    SendError,
    /// Wrong argument count or argument type for the attempted operation.
    ArgumentError,
}

} // verus!
