//! RPMI messages: headers, message types, service identifiers and status codes.
use vstd::prelude::*;

use crate::bytes::{u16_at, u16_le, u32_le};

verus! {

/// Size of the message header in bytes.
pub const RPMI_MSG_HDR_SIZE: usize = 8;

/// Mask of the token bits.
pub const RPMI_MSG_TOKEN_MASK: u16 = 0xffff;

/// Mask of the message-type bits in the header flags.
pub const RPMI_MSG_TYPE_MASK: u8 = 0x7;

/// Kind of an RPMI message, carried in the low bits of the header flags.
#[derive(Clone, Copy, PartialEq, Eq, Structural, Debug)]
pub enum MessageType {
    /// A request that is acknowledged.
    NormalRequest,
    /// A request without acknowledgement.
    PostedRequest,
    /// The acknowledgement of a normal request.
    Acknowledgement,
    /// An asynchronous notification.
    Notification,
}

impl MessageType {
    /// The type's number on the wire.
    pub open spec fn code(self) -> u8 {
        match self {
            MessageType::NormalRequest => 0,
            MessageType::PostedRequest => 1,
            MessageType::Acknowledgement => 2,
            MessageType::Notification => 3,
        }
    }

    /// The type's number on the wire.
    pub fn bits(self) -> (b: u8)
        ensures
            b == self.code(),
    {
        match self {
            MessageType::NormalRequest => 0,
            MessageType::PostedRequest => 1,
            MessageType::Acknowledgement => 2,
            MessageType::Notification => 3,
        }
    }
}

/// Status of an RPMI request.
#[derive(Clone, Copy, PartialEq, Eq, Structural, Debug)]
pub enum Error {
    /// The request succeeded.
    Success,
    /// The request failed.
    Failed,
    /// The service is not supported.
    NotSupported,
    /// A parameter is invalid.
    InvalidParam,
    /// The request was denied.
    Denied,
    /// An address is invalid.
    InvalidAddr,
    /// The resource is already in the wanted state.
    Already,
    /// An extension is missing.
    Extension,
    /// The hardware reported a fault.
    HwFault,
    /// The resource is busy.
    Busy,
    /// The resource is in the wrong state.
    InvalidState,
    /// An index or range is out of bounds.
    BadRange,
    /// The request timed out.
    Timeout,
    /// Input or output failed.
    Io,
    /// No data is available.
    NoData,
}

impl Error {
    /// The status word of the error: zero for success, small negative numbers otherwise.
    pub open spec fn status(self) -> int {
        match self {
            Error::Success => 0,
            Error::Failed => -1,
            Error::NotSupported => -2,
            Error::InvalidParam => -3,
            Error::Denied => -4,
            Error::InvalidAddr => -5,
            Error::Already => -6,
            Error::Extension => -7,
            Error::HwFault => -8,
            Error::Busy => -9,
            Error::InvalidState => -10,
            Error::BadRange => -11,
            Error::Timeout => -12,
            Error::Io => -13,
            Error::NoData => -14,
        }
    }

    /// The error that a status word stands for; a word that stands for none is a failure.
    pub open spec fn of_status(status: int) -> Error {
        if status == 0 {
            Error::Success
        } else if status == -2 {
            Error::NotSupported
        } else if status == -3 {
            Error::InvalidParam
        } else if status == -4 {
            Error::Denied
        } else if status == -5 {
            Error::InvalidAddr
        } else if status == -6 {
            Error::Already
        } else if status == -7 {
            Error::Extension
        } else if status == -8 {
            Error::HwFault
        } else if status == -9 {
            Error::Busy
        } else if status == -10 {
            Error::InvalidState
        } else if status == -11 {
            Error::BadRange
        } else if status == -12 {
            Error::Timeout
        } else if status == -13 {
            Error::Io
        } else if status == -14 {
            Error::NoData
        } else {
            Error::Failed
        }
    }

    /// Decodes a status word; an unknown word is a failure.
    pub fn from_status(status: i32) -> (e: Error)
        ensures
            e == Error::of_status(status as int),
    {
        match status {
            0 => Error::Success,
            -1 => Error::Failed,
            -2 => Error::NotSupported,
            -3 => Error::InvalidParam,
            -4 => Error::Denied,
            -5 => Error::InvalidAddr,
            -6 => Error::Already,
            -7 => Error::Extension,
            -8 => Error::HwFault,
            -9 => Error::Busy,
            -10 => Error::InvalidState,
            -11 => Error::BadRange,
            -12 => Error::Timeout,
            -13 => Error::Io,
            -14 => Error::NoData,
            _ => Error::Failed,
        }
    }

    /// Decoding the status word of an error gives the error back.
    pub proof fn status_roundtrip(self)
        ensures
            Error::of_status(self.status()) == self,
    {
    }
}

impl Error {
    /// The number of each status. Success alone is zero, the others count down from it without a
    /// gap, and a word that is not among them is a failure.
    pub proof fn numbers(word: int)
        ensures
            Error::Success.status() == 0,
            Error::Failed.status() == -1,
            Error::NotSupported.status() == -2,
            Error::InvalidParam.status() == -3,
            Error::Denied.status() == -4,
            Error::InvalidAddr.status() == -5,
            Error::Already.status() == -6,
            Error::Extension.status() == -7,
            Error::HwFault.status() == -8,
            Error::Busy.status() == -9,
            Error::InvalidState.status() == -10,
            Error::BadRange.status() == -11,
            Error::Timeout.status() == -12,
            Error::Io.status() == -13,
            Error::NoData.status() == -14,
            -14 <= word <= 0 ==> Error::of_status(word).status() == word,
            word < -14 || 0 < word ==> Error::of_status(word) == Error::Failed,
    {
    }
}

impl MessageType {
    /// The number of each type, which fits into the three bits that it has in the flags.
    pub proof fn numbers(self)
        ensures
            MessageType::NormalRequest.code() == 0,
            MessageType::PostedRequest.code() == 1,
            MessageType::Acknowledgement.code() == 2,
            MessageType::Notification.code() == 3,
            self.code() < 8,
    {
    }
}

/// Header of an RPMI message.
#[derive(Clone, Copy, PartialEq, Eq, Structural, Debug)]
pub struct MessageHeader {
    /// Service group the message belongs to.
    pub servicegroup_id: u16,
    /// Service within the group.
    pub service_id: u8,
    /// Message flags; the low bits hold the message type.
    pub flags: u8,
    /// Length of the payload in bytes.
    pub datalen: u16,
    /// Token that pairs a request with its acknowledgement.
    pub token: u16,
}

impl MessageHeader {
    /// The header's eight bytes in shared memory.
    pub open spec fn to_bytes(self) -> Seq<u8> {
        u16_le(self.servicegroup_id) + seq![self.service_id, self.flags] + u16_le(self.datalen)
            + u16_le(self.token)
    }

    /// The header that a message starts with.
    pub open spec fn of_bytes(b: Seq<u8>) -> MessageHeader {
        MessageHeader {
            servicegroup_id: u16_at(b, 0),
            service_id: b[2],
            flags: b[3],
            datalen: u16_at(b, 4),
            token: u16_at(b, 6),
        }
    }

    /// Creates a header from its fields.
    pub fn from_fields(
        servicegroup_id: u16,
        service_id: u8,
        flags: u8,
        datalen: u16,
        token: u16,
    ) -> (h: MessageHeader)
        ensures
            h == (MessageHeader { servicegroup_id, service_id, flags, datalen, token }),
    {
        MessageHeader { servicegroup_id, service_id, flags, datalen, token }
    }

    /// Creates the header of a message of the given type.
    pub fn new(
        servicegroup_id: u16,
        service_id: u8,
        msg_type: MessageType,
        datalen: u16,
        token: u16,
    ) -> (h: MessageHeader)
        ensures
            h == (MessageHeader {
                servicegroup_id,
                service_id,
                flags: msg_type.code(),
                datalen,
                token,
            }),
    {
        MessageHeader { servicegroup_id, service_id, flags: msg_type.bits(), datalen, token }
    }

    /// The header as two 32-bit words.
    pub open spec fn to_words(self) -> Seq<u32> {
        seq![
            (self.servicegroup_id + 65536 * self.service_id + 16777216 * self.flags) as u32,
            (self.datalen + 65536 * self.token) as u32,
        ]
    }

    /// The header as two 32-bit words.
    pub fn words(&self) -> (w: [u32; 2])
        ensures
            w@ == self.to_words(),
    {
        let w = [
            self.servicegroup_id as u32 + 65536 * (self.service_id as u32) + 16777216 * (self.flags
                as u32),
            self.datalen as u32 + 65536 * (self.token as u32),
        ];
        assert(w@ =~= self.to_words());
        w
    }

    /// The two words, stored little-endian, lay the header out as its separate fields do.
    pub proof fn words_layout(self)
        ensures
            u32_le(self.to_words()[0]) + u32_le(self.to_words()[1]) == self.to_bytes(),
    {
        let (g, s, f) = (self.servicegroup_id, self.service_id, self.flags);
        let (d, t) = (self.datalen, self.token);
        let w0: u32 = self.to_words()[0];
        let w1: u32 = self.to_words()[1];
        assert(w0 == (g as u32) + 65536 * (s as u32) + 16777216 * (f as u32));
        assert(w1 == (d as u32) + 65536 * (t as u32));
        assert(w0 % 256 == g % 256 && w0 / 256 % 256 == g / 256 && w0 / 65536 % 256 == s && w0
            / 16777216 == f) by (bit_vector)
            requires
                w0 == (g as u32) + 65536 * (s as u32) + 16777216 * (f as u32),
        ;
        assert(w1 % 256 == d % 256 && w1 / 256 % 256 == d / 256 && w1 / 65536 % 256 == t % 256 && w1
            / 16777216 == t / 256) by (bit_vector)
            requires
                w1 == (d as u32) + 65536 * (t as u32),
        ;
        assert(u32_le(w0) + u32_le(w1) =~= self.to_bytes());
    }

    /// Where the fields of a header lie in its eight bytes, numbers least significant byte first.
    pub proof fn header_on_wire(self)
        ensures
            ({
                let b = self.to_bytes();
                &&& b.len() == 8
                &&& b[0] + 256 * b[1] == self.servicegroup_id
                &&& b[2] == self.service_id
                &&& b[3] == self.flags
                &&& b[4] + 256 * b[5] == self.datalen
                &&& b[6] + 256 * b[7] == self.token
            }),
    {
    }

    /// Reading a header takes its fields from there.
    pub proof fn header_from_wire(b: Seq<u8>)
        ensures
            ({
                let h = MessageHeader::of_bytes(b);
                &&& h.servicegroup_id == b[0] + 256 * b[1]
                &&& h.service_id == b[2]
                &&& h.flags == b[3]
                &&& h.datalen == b[4] + 256 * b[5]
                &&& h.token == b[6] + 256 * b[7]
            }),
    {
    }

    /// Reading a header back from the bytes it was written as gives the header.
    pub proof fn bytes_roundtrip(self, rest: Seq<u8>)
        ensures
            MessageHeader::of_bytes(self.to_bytes() + rest) == self,
    {
    }
}

} // verus!
