//! The message envelope and the concrete wire messages.
//!
//! Every frame starts with a fixed [`Header`] — the originating peer's
//! numeric id and the payload's byte length — followed by the payload.
//! The header carries no message-kind tag: the transport direction
//! alone selects which sum type's codec applies, and that sum type's
//! own leading tag byte distinguishes its variants.

use vstd::prelude::*;

use crate::endian::{
    lemma_u32_be_round_trip, read_u32_be, u32_be_bytes, u32_from_be, write_u32_be, write_u8_be,
};
use crate::serialization::{max_nat, sum_size_bound, DecodeError, PrimKind, Serializable};

verus! {

/// The larger of two sizes, usable when composing size bounds.
pub fn const_max(a: usize, b: usize) -> (r: usize)
    ensures
        r == if a > b {
            a
        } else {
            b
        },
{
    if a > b {
        a
    } else {
        b
    }
}

/// The encoded size of a [`Header`]: two four-byte fields.
pub const HEADER_SERIALIZED_SIZE: usize = 8;

/// The size bound over every message the server can send on either
/// transport; see [`lemma_max_server_message_size`].
pub const MAX_SERVER_MESSAGE_SIZE: usize = 1;

/// The size bound over every message a client can send on either
/// transport; see [`lemma_max_client_message_size`].
pub const MAX_CLIENT_MESSAGE_SIZE: usize = 1;

/// The fixed-size envelope prefixed to every payload: the originating
/// peer's id (0 when the server itself is the origin) and the payload
/// length in bytes.
#[derive(Clone, Copy, Debug, PartialEq, Eq, Structural)]
pub struct Header {
    pub client: u32,
    pub size: u32,
}

impl Serializable for Header {
    open spec fn max_bin_size_spec() -> nat {
        8
    }

    open spec fn wire_bytes(&self) -> Seq<u8> {
        u32_be_bytes(self.client) + u32_be_bytes(self.size)
    }

    open spec fn decoded(b: Seq<u8>) -> Result<Header, DecodeError> {
        if b.len() < 8 {
            Err(DecodeError::SourceTooShort)
        } else {
            Ok(
                Header {
                    client: u32_from_be(b.subrange(0, 4)),
                    size: u32_from_be(b.subrange(4, 8)),
                },
            )
        }
    }

    fn max_bin_size() -> usize {
        8
    }

    fn serialize(&self, into: &mut Vec<u8>, offset: usize) -> usize {
        write_u32_be(self.client, into, offset);
        write_u32_be(self.size, into, offset + 4);
        proof {
            assert(into@.subrange(offset as int, offset + 4) =~= u32_be_bytes(self.client));
            assert(into@.subrange(offset as int, offset + 8) =~= u32_be_bytes(self.client)
                + u32_be_bytes(self.size));
        }
        8
    }

    fn deserialize(from: &[u8]) -> Result<Header, DecodeError> {
        if from.len() < 8 {
            Err(DecodeError::SourceTooShort)
        } else {
            let client = read_u32_be(from, 0);
            let size = read_u32_be(from, 4);
            Ok(Header { client, size })
        }
    }

    proof fn lemma_round_trip(&self, pad: Seq<u8>) {
        let b = self.wire_bytes() + pad;
        assert(b.subrange(0, 4) =~= u32_be_bytes(self.client));
        assert(b.subrange(4, 8) =~= u32_be_bytes(self.size));
        lemma_u32_be_round_trip(self.client);
        lemma_u32_be_round_trip(self.size);
    }
}

/// What the server sends to a client over the stream transport.
#[derive(Clone, Copy, Debug, PartialEq, Eq, Structural)]
pub enum ServerToClientTcpMessage {
    /// The server received the handshake, and accepted the client in
    /// the game.
    WelcomeIn,
    /// The server reached the maximum allowed amount of clients and is
    /// refusing the connection.
    ServerFull,
    /// The server is shutting down, and disconnected the client.  The
    /// client is expected to close its socket.
    ServerClosing,
}

impl ServerToClientTcpMessage {
    /// The zero-based declaration index of the active variant.
    pub open spec fn tag(&self) -> u8 {
        match *self {
            ServerToClientTcpMessage::WelcomeIn => 0,
            ServerToClientTcpMessage::ServerFull => 1,
            ServerToClientTcpMessage::ServerClosing => 2,
        }
    }
}

impl Serializable for ServerToClientTcpMessage {
    open spec fn max_bin_size_spec() -> nat {
        1
    }

    open spec fn wire_bytes(&self) -> Seq<u8> {
        seq![self.tag()]
    }

    open spec fn decoded(b: Seq<u8>) -> Result<ServerToClientTcpMessage, DecodeError> {
        if b.len() < 1 {
            Err(DecodeError::SourceTooShort)
        } else if b[0] == 0 {
            Ok(ServerToClientTcpMessage::WelcomeIn)
        } else if b[0] == 1 {
            Ok(ServerToClientTcpMessage::ServerFull)
        } else if b[0] == 2 {
            Ok(ServerToClientTcpMessage::ServerClosing)
        } else {
            Err(DecodeError::UnrecognizedTag)
        }
    }

    fn max_bin_size() -> usize {
        1
    }

    fn serialize(&self, into: &mut Vec<u8>, offset: usize) -> usize {
        let t: u8 = match *self {
            ServerToClientTcpMessage::WelcomeIn => 0,
            ServerToClientTcpMessage::ServerFull => 1,
            ServerToClientTcpMessage::ServerClosing => 2,
        };
        write_u8_be(t, into, offset);
        proof {
            assert(into@.subrange(offset as int, offset + 1) =~= seq![self.tag()]);
        }
        1
    }

    fn deserialize(from: &[u8]) -> Result<ServerToClientTcpMessage, DecodeError> {
        if from.len() < 1 {
            Err(DecodeError::SourceTooShort)
        } else {
            let t = from[0];
            if t == 0 {
                Ok(ServerToClientTcpMessage::WelcomeIn)
            } else if t == 1 {
                Ok(ServerToClientTcpMessage::ServerFull)
            } else if t == 2 {
                Ok(ServerToClientTcpMessage::ServerClosing)
            } else {
                Err(DecodeError::UnrecognizedTag)
            }
        }
    }

    proof fn lemma_round_trip(&self, pad: Seq<u8>) {
        let b = self.wire_bytes() + pad;
        assert(b[0] == self.tag());
    }
}

/// Guard field of the placeholder message variants below.  It has no
/// public constructor and nothing in this crate builds one, so no
/// placeholder message value is ever produced.
#[derive(Clone, Copy, Debug)]
pub struct NeverSent {
    _guard: (),
}

/// What the server sends to a client over the datagram transport: an
/// unused extension point that declares no sendable variant yet.
///
/// Its codec is that of the empty sum type: the size bound is the tag
/// byte alone, every possible tag value is unrecognized, and decoding
/// always fails.  The one reserved variant exists only so the
/// direction has a type before real variants arrive; it carries
/// [`NeverSent`], so no value of it can be built outside this crate.
#[derive(Clone, Copy, Debug)]
pub enum ServerToClientUdpMessage {
    /// Reserved; never produced or encoded.
    Reserved(NeverSent),
}

impl ServerToClientUdpMessage {
    /// The size bound of the empty sum: the tag byte alone.
    pub fn max_bin_size() -> (r: usize)
        ensures
            r == sum_size_bound(Seq::<Seq<PrimKind>>::empty()),
    {
        1
    }

    /// Decoding always fails, exactly as the empty sum type decodes: a
    /// short source for want of bytes, any other because its tag byte
    /// names no declared variant.
    pub fn deserialize(from: &[u8]) -> (r: Result<ServerToClientUdpMessage, DecodeError>)
        ensures
            r is Err,
            from@.len() < 1 ==> r == Err::<ServerToClientUdpMessage, DecodeError>(
                DecodeError::SourceTooShort,
            ),
            from@.len() >= 1 ==> r == Err::<ServerToClientUdpMessage, DecodeError>(
                DecodeError::UnrecognizedTag,
            ),
    {
        if from.len() < 1 {
            Err(DecodeError::SourceTooShort)
        } else {
            Err(DecodeError::UnrecognizedTag)
        }
    }
}

/// What a client sends to the server over the stream transport: no
/// sendable variant is declared yet; see [`ServerToClientUdpMessage`]
/// for the empty-sum reading.
#[derive(Clone, Copy, Debug)]
pub enum ClientToServerTcpMessage {
    /// Reserved; never produced or encoded.
    Reserved(NeverSent),
}

impl ClientToServerTcpMessage {
    /// The size bound of the empty sum: the tag byte alone.
    pub fn max_bin_size() -> (r: usize)
        ensures
            r == sum_size_bound(Seq::<Seq<PrimKind>>::empty()),
    {
        1
    }

    /// Decoding always fails, exactly as the empty sum type decodes.
    pub fn deserialize(from: &[u8]) -> (r: Result<ClientToServerTcpMessage, DecodeError>)
        ensures
            r is Err,
            from@.len() < 1 ==> r == Err::<ClientToServerTcpMessage, DecodeError>(
                DecodeError::SourceTooShort,
            ),
            from@.len() >= 1 ==> r == Err::<ClientToServerTcpMessage, DecodeError>(
                DecodeError::UnrecognizedTag,
            ),
    {
        if from.len() < 1 {
            Err(DecodeError::SourceTooShort)
        } else {
            Err(DecodeError::UnrecognizedTag)
        }
    }
}

/// What a client sends to the server over the datagram transport: no
/// sendable variant is declared yet; see [`ServerToClientUdpMessage`]
/// for the empty-sum reading.
#[derive(Clone, Copy, Debug)]
pub enum ClientToServerUdpMessage {
    /// Reserved; never produced or encoded.
    Reserved(NeverSent),
}

impl ClientToServerUdpMessage {
    /// The size bound of the empty sum: the tag byte alone.
    pub fn max_bin_size() -> (r: usize)
        ensures
            r == sum_size_bound(Seq::<Seq<PrimKind>>::empty()),
    {
        1
    }

    /// Decoding always fails, exactly as the empty sum type decodes.
    pub fn deserialize(from: &[u8]) -> (r: Result<ClientToServerUdpMessage, DecodeError>)
        ensures
            r is Err,
            from@.len() < 1 ==> r == Err::<ClientToServerUdpMessage, DecodeError>(
                DecodeError::SourceTooShort,
            ),
            from@.len() >= 1 ==> r == Err::<ClientToServerUdpMessage, DecodeError>(
                DecodeError::UnrecognizedTag,
            ),
    {
        if from.len() < 1 {
            Err(DecodeError::SourceTooShort)
        } else {
            Err(DecodeError::UnrecognizedTag)
        }
    }
}

/// `HEADER_SERIALIZED_SIZE` is the header codec's own size bound.
pub proof fn lemma_header_serialized_size()
    ensures
        HEADER_SERIALIZED_SIZE == Header::max_bin_size_spec(),
{
}

/// `MAX_SERVER_MESSAGE_SIZE` is exactly the larger of the two
/// server-side message size bounds: the stream direction's, and the
/// datagram direction's (an empty sum).
pub proof fn lemma_max_server_message_size()
    ensures
        MAX_SERVER_MESSAGE_SIZE == max_nat(
            ServerToClientTcpMessage::max_bin_size_spec(),
            sum_size_bound(Seq::<Seq<PrimKind>>::empty()),
        ),
{
}

/// `MAX_CLIENT_MESSAGE_SIZE` is exactly the larger of the two
/// client-side message size bounds; both directions are empty sums.
pub proof fn lemma_max_client_message_size()
    ensures
        MAX_CLIENT_MESSAGE_SIZE == max_nat(
            sum_size_bound(Seq::<Seq<PrimKind>>::empty()),
            sum_size_bound(Seq::<Seq<PrimKind>>::empty()),
        ),
{
}

} // verus!
