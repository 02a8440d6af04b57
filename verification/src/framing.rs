//! Framing of the upstream mining protocol: the message identifiers and the
//! four-byte header that precedes every message on the wire.

use vstd::prelude::*;

verus! {

/// Identifiers of all messages recognized by the protocol.
#[derive(Clone, Copy, PartialEq, Eq, Structural, Debug)]
pub enum MessageType {
    SetupMiningConnection,
    SetupMiningConnectionSuccess,
    SetupMiningConnectionError,
    OpenChannel,
    OpenChannelSuccess,
    OpenChannelError,
    UpdateChannel,
    UpdateChannelError,
    NewMiningJob,
    SetTarget,
    SetNewPrevHash,
    SubmitShares,
    SubmitSharesSuccess,
    SubmitSharesError,
}

impl MessageType {
    /// The byte that stands for this message on the wire.
    pub open spec fn id(self) -> u8 {
        match self {
            MessageType::SetupMiningConnection => 0x00,
            MessageType::SetupMiningConnectionSuccess => 0x01,
            MessageType::SetupMiningConnectionError => 0x02,
            MessageType::OpenChannel => 0x03,
            MessageType::OpenChannelSuccess => 0x04,
            MessageType::OpenChannelError => 0x05,
            MessageType::UpdateChannel => 0x06,
            MessageType::UpdateChannelError => 0x07,
            MessageType::NewMiningJob => 0x08,
            MessageType::SetTarget => 0x09,
            MessageType::SetNewPrevHash => 0x0a,
            MessageType::SubmitShares => 0x0b,
            MessageType::SubmitSharesSuccess => 0x0c,
            MessageType::SubmitSharesError => 0x0d,
        }
    }

    /// Encodes the message identifier as its wire byte.
    pub fn to_primitive(&self) -> (byte: u8)
        ensures
            byte == self.id(),
    {
        match self {
            MessageType::SetupMiningConnection => 0x00,
            MessageType::SetupMiningConnectionSuccess => 0x01,
            MessageType::SetupMiningConnectionError => 0x02,
            MessageType::OpenChannel => 0x03,
            MessageType::OpenChannelSuccess => 0x04,
            MessageType::OpenChannelError => 0x05,
            MessageType::UpdateChannel => 0x06,
            MessageType::UpdateChannelError => 0x07,
            MessageType::NewMiningJob => 0x08,
            MessageType::SetTarget => 0x09,
            MessageType::SetNewPrevHash => 0x0a,
            MessageType::SubmitShares => 0x0b,
            MessageType::SubmitSharesSuccess => 0x0c,
            MessageType::SubmitSharesError => 0x0d,
        }
    }

    /// The message that the wire byte `byte` stands for, if there is one.
    pub open spec fn spec_from_primitive(byte: u8) -> Option<MessageType> {
        if byte == 0x00 {
            Some(MessageType::SetupMiningConnection)
        } else if byte == 0x01 {
            Some(MessageType::SetupMiningConnectionSuccess)
        } else if byte == 0x02 {
            Some(MessageType::SetupMiningConnectionError)
        } else if byte == 0x03 {
            Some(MessageType::OpenChannel)
        } else if byte == 0x04 {
            Some(MessageType::OpenChannelSuccess)
        } else if byte == 0x05 {
            Some(MessageType::OpenChannelError)
        } else if byte == 0x06 {
            Some(MessageType::UpdateChannel)
        } else if byte == 0x07 {
            Some(MessageType::UpdateChannelError)
        } else if byte == 0x08 {
            Some(MessageType::NewMiningJob)
        } else if byte == 0x09 {
            Some(MessageType::SetTarget)
        } else if byte == 0x0a {
            Some(MessageType::SetNewPrevHash)
        } else if byte == 0x0b {
            Some(MessageType::SubmitShares)
        } else if byte == 0x0c {
            Some(MessageType::SubmitSharesSuccess)
        } else if byte == 0x0d {
            Some(MessageType::SubmitSharesError)
        } else {
            None
        }
    }

    /// Whether `byte` is the identifier of some message.
    pub open spec fn is_known(byte: u8) -> bool {
        exists|message: MessageType| message.id() == byte
    }

    /// Decodes a wire byte. Every byte that is not the identifier of a
    /// message gives `None`.
    pub fn from_primitive(byte: u8) -> (message: Option<MessageType>)
        ensures
            message == MessageType::spec_from_primitive(byte),
            message matches Some(m) ==> m.id() == byte,
            message is Some <==> MessageType::is_known(byte),
    {
        let message = match byte {
            0x00 => Some(MessageType::SetupMiningConnection),
            0x01 => Some(MessageType::SetupMiningConnectionSuccess),
            0x02 => Some(MessageType::SetupMiningConnectionError),
            0x03 => Some(MessageType::OpenChannel),
            0x04 => Some(MessageType::OpenChannelSuccess),
            0x05 => Some(MessageType::OpenChannelError),
            0x06 => Some(MessageType::UpdateChannel),
            0x07 => Some(MessageType::UpdateChannelError),
            0x08 => Some(MessageType::NewMiningJob),
            0x09 => Some(MessageType::SetTarget),
            0x0a => Some(MessageType::SetNewPrevHash),
            0x0b => Some(MessageType::SubmitShares),
            0x0c => Some(MessageType::SubmitSharesSuccess),
            0x0d => Some(MessageType::SubmitSharesError),
            _ => None,
        };
        proof {
            MessageType::lemma_from_primitive(byte);
        }
        message
    }

    /// `spec_from_primitive` is the inverse of `id`: it finds the message of
    /// every identifier and of no other byte.
    pub proof fn lemma_from_primitive(byte: u8)
        ensures
            MessageType::spec_from_primitive(byte) matches Some(m) ==> m.id() == byte,
            MessageType::spec_from_primitive(byte) is Some <==> MessageType::is_known(byte),
            forall|message: MessageType| #[trigger]
                message.id() == byte ==> MessageType::spec_from_primitive(byte) == Some(message),
    {
        if let Some(m) = MessageType::spec_from_primitive(byte) {
            assert(m.id() == byte);
        }
    }
}

/// Why bytes could not be decoded as a header.
#[derive(Clone, Copy, PartialEq, Eq, Structural, Debug)]
pub enum DecodeError {
    /// The first byte is not the identifier of any message.
    UnknownMessageType,
    /// Fewer bytes than a header has.
    ShortBuffer,
    /// More bytes than a header has.
    LengthOverflow,
}

/// Header of a protocol message: the message identifier in one byte, then the
/// length of the message in three bytes, least significant byte first.
#[derive(Clone, Copy, PartialEq, Eq, Structural, Debug)]
pub struct Header {
    msg_type: MessageType,
    msg_length: u32,
}

/// The number that three bytes spell, least significant byte first.
pub open spec fn le24(low: u8, mid: u8, high: u8) -> nat {
    (low as nat) + 0x100 * (mid as nat) + 0x1_0000 * (high as nat)
}

/// The three bytes that spell a number are its digits in base 256.
pub proof fn lemma_le24_digits(low: u8, mid: u8, high: u8)
    ensures
        le24(low, mid, high) <= 0xff_ffff,
        le24(low, mid, high) % 0x100 == low,
        le24(low, mid, high) / 0x100 % 0x100 == mid,
        le24(low, mid, high) / 0x1_0000 % 0x100 == high,
{
}

impl Header {
    /// Number of bytes of a header on the wire.
    pub const SIZE: usize = 4;

    /// The longest message that a header can announce.
    pub const MAX_LENGTH: usize = 0xff_ffff;

    #[verifier::type_invariant]
    closed spec fn fits(self) -> bool {
        self.valid()
    }

    /// The kind of message that the header announces.
    pub closed spec fn spec_msg_type(self) -> MessageType {
        self.msg_type
    }

    /// The length of the message that the header announces.
    pub closed spec fn spec_msg_length(self) -> nat {
        self.msg_length as nat
    }

    /// A header is valid when its length fits in 24 bits. Every header that
    /// this module hands out is valid.
    pub open spec fn valid(self) -> bool {
        self.spec_msg_length() <= 0xff_ffff
    }

    /// The four bytes of the header on the wire.
    pub open spec fn spec_pack(self) -> Seq<u8> {
        seq![
            self.spec_msg_type().id(),
            (self.spec_msg_length() % 0x100) as u8,
            (self.spec_msg_length() / 0x100 % 0x100) as u8,
            (self.spec_msg_length() / 0x1_0000 % 0x100) as u8,
        ]
    }

    /// The header that `bytes` spell, or the reason why they spell none.
    pub open spec fn spec_unpack(bytes: Seq<u8>) -> Result<Header, DecodeError> {
        if bytes.len() < 4 {
            Err(DecodeError::ShortBuffer)
        } else if bytes.len() > 4 {
            Err(DecodeError::LengthOverflow)
        } else {
            match MessageType::spec_from_primitive(bytes[0]) {
                None => Err(DecodeError::UnknownMessageType),
                Some(msg_type) => Ok(Header::spec_new(msg_type, le24(bytes[1], bytes[2], bytes[3]))),
            }
        }
    }

    /// The header with the given parts.
    pub closed spec fn spec_new(msg_type: MessageType, msg_length: nat) -> Header {
        Header { msg_type, msg_length: msg_length as u32 }
    }

    /// A header is determined by its two parts.
    pub proof fn lemma_parts(msg_type: MessageType, msg_length: nat)
        requires
            msg_length <= 0xff_ffff,
        ensures
            Header::spec_new(msg_type, msg_length).spec_msg_type() == msg_type,
            Header::spec_new(msg_type, msg_length).spec_msg_length() == msg_length,
            Header::spec_new(msg_type, msg_length).valid(),
    {
    }

    /// Two valid headers with the same parts are the same header.
    pub proof fn lemma_same_parts(self, other: Header)
        requires
            self.valid(),
            self.spec_msg_type() == other.spec_msg_type(),
            self.spec_msg_length() == other.spec_msg_length(),
        ensures
            self == other,
    {
    }

    /// Builds the header of a message of kind `msg_type` that is
    /// `msg_length` bytes long. The length has to fit in 24 bits.
    pub fn new(msg_type: MessageType, msg_length: usize) -> (header: Header)
        requires
            msg_length <= 0xff_ffff,
        ensures
            header == Header::spec_new(msg_type, msg_length as nat),
            header.spec_msg_type() == msg_type,
            header.spec_msg_length() == msg_length,
            header.valid(),
    {
        Header { msg_type, msg_length: msg_length as u32 }
    }

    /// Builds a header as `new` does, and rejects a length that does not fit
    /// in 24 bits.
    pub fn try_new(msg_type: MessageType, msg_length: usize) -> (built: Option<Header>)
        ensures
            msg_length <= 0xff_ffff ==> built == Some(
                Header::spec_new(msg_type, msg_length as nat),
            ),
            msg_length > 0xff_ffff ==> built is None,
            built matches Some(header) ==> {
                &&& header.valid()
                &&& header.spec_msg_type() == msg_type
                &&& header.spec_msg_length() == msg_length
            },
    {
        if msg_length <= Header::MAX_LENGTH {
            Some(Header::new(msg_type, msg_length))
        } else {
            None
        }
    }

    /// The kind of message that the header announces.
    pub fn msg_type(&self) -> (msg_type: MessageType)
        ensures
            msg_type == self.spec_msg_type(),
    {
        self.msg_type
    }

    /// The length of the message that the header announces.
    pub fn msg_length(&self) -> (msg_length: u32)
        ensures
            msg_length == self.spec_msg_length(),
            msg_length <= 0xff_ffff,
            self.valid(),
    {
        proof {
            use_type_invariant(self);
        }
        self.msg_length
    }

    /// Encodes the header as its four bytes on the wire.
    pub fn pack(&self) -> (bytes: [u8; 4])
        ensures
            bytes@ == self.spec_pack(),
            self.valid(),
    {
        proof {
            use_type_invariant(self);
        }
        let length: u32 = self.msg_length;
        let bytes: [u8; 4] = [
            self.msg_type.to_primitive(),
            (length % 0x100) as u8,
            (length / 0x100 % 0x100) as u8,
            (length / 0x1_0000) as u8,
        ];
        assert(bytes@ =~= self.spec_pack());
        bytes
    }

    /// Decodes a header from its four bytes on the wire. The only headers
    /// that are refused are those whose first byte names no message.
    pub fn unpack(bytes: &[u8; 4]) -> (header: Result<Header, DecodeError>)
        ensures
            header == Header::spec_unpack(bytes@),
            header is Ok <==> MessageType::is_known(bytes@[0]),
            header matches Ok(h) ==> {
                &&& h.valid()
                &&& h.spec_msg_type().id() == bytes@[0]
                &&& h.spec_msg_length() == le24(bytes@[1], bytes@[2], bytes@[3])
            },
    {
        match MessageType::from_primitive(bytes[0]) {
            None => Err(DecodeError::UnknownMessageType),
            Some(msg_type) => {
                let low: u32 = bytes[1] as u32;
                let mid: u32 = bytes[2] as u32;
                let high: u32 = bytes[3] as u32;
                Ok(Header { msg_type, msg_length: low + 0x100 * mid + 0x1_0000 * high })
            },
        }
    }

    /// Decodes a header from a slice, which has to hold exactly the four
    /// bytes of a header.
    pub fn unpack_from_slice(bytes: &[u8]) -> (header: Result<Header, DecodeError>)
        ensures
            header == Header::spec_unpack(bytes@),
            header is Ok <==> bytes@.len() == 4 && MessageType::is_known(bytes@[0]),
            header matches Ok(h) ==> {
                &&& h.valid()
                &&& h.spec_msg_type().id() == bytes@[0]
                &&& h.spec_msg_length() == le24(bytes@[1], bytes@[2], bytes@[3])
            },
    {
        if bytes.len() < Header::SIZE {
            Err(DecodeError::ShortBuffer)
        } else if bytes.len() > Header::SIZE {
            Err(DecodeError::LengthOverflow)
        } else {
            let array: [u8; 4] = [bytes[0], bytes[1], bytes[2], bytes[3]];
            assert(array@ =~= bytes@);
            Header::unpack(&array)
        }
    }

    /// Packing a valid header and unpacking the bytes gives the header back.
    pub proof fn lemma_unpack_pack(self)
        requires
            self.valid(),
        ensures
            Header::spec_unpack(self.spec_pack()) == Ok::<Header, DecodeError>(self),
    {
        let bytes = self.spec_pack();
        MessageType::lemma_from_primitive(bytes[0]);
        assert(MessageType::spec_from_primitive(bytes[0]) == Some(self.msg_type));
        let n = self.msg_length as nat;
        assert(n == n % 0x100 + 0x100 * (n / 0x100 % 0x100) + 0x1_0000 * (n / 0x1_0000 % 0x100));
        assert(le24(bytes[1], bytes[2], bytes[3]) == n);
    }

    /// Unpacking four bytes whose first is a message identifier and packing
    /// the header gives the bytes back.
    pub proof fn lemma_pack_unpack(bytes: Seq<u8>)
        requires
            bytes.len() == 4,
            MessageType::is_known(bytes[0]),
        ensures
            Header::spec_unpack(bytes) is Ok,
            Header::spec_unpack(bytes)->Ok_0.valid(),
            Header::spec_unpack(bytes)->Ok_0.spec_pack() == bytes,
    {
        MessageType::lemma_from_primitive(bytes[0]);
        lemma_le24_digits(bytes[1], bytes[2], bytes[3]);
        let msg_type = MessageType::spec_from_primitive(bytes[0])->Some_0;
        let header = Header::spec_new(msg_type, le24(bytes[1], bytes[2], bytes[3]));
        assert(Header::spec_unpack(bytes) == Ok::<Header, DecodeError>(header));
        assert(header.spec_pack() =~= bytes);
    }

    /// A first byte that is the identifier of no message, such as `0xff`, is
    /// refused whatever follows it.
    pub proof fn lemma_unknown_refused(bytes: Seq<u8>)
        requires
            bytes.len() == 4,
            bytes[0] > 0x0d,
        ensures
            !MessageType::is_known(bytes[0]),
            Header::spec_unpack(bytes) == Err::<Header, DecodeError>(
                DecodeError::UnknownMessageType,
            ),
    {
        MessageType::lemma_from_primitive(bytes[0]);
    }
}

} // verus!
