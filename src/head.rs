//! Stream identifiers, the frame header and the parse errors of this codec.

use vstd::prelude::*;
use crate::wire::{be24, be32, be32_value, get_u32, lemma_be32_round_trip, put_u24, put_u32};

verus! {

/// Largest payload length that the 24-bit length field of a header can hold, plus one.
pub const FRAME_LEN_LIMIT: usize = 0x100_0000;

/// Length of the fixed frame header.
pub const HEADER_LEN: usize = 9;

/// The reserved high bit of a 32-bit stream identifier field.
pub const STREAM_ID_MASK: u32 = 0x8000_0000;

/// A 31-bit stream identifier; 0 names the connection itself.
#[derive(Clone, Copy, Debug, PartialEq, Eq, Structural, Hash, PartialOrd, Ord)]
pub struct StreamId(pub u32);

impl StreamId {
    /// The identifier fits in 31 bits.
    pub open spec fn valid(self) -> bool {
        self.0 < 0x8000_0000
    }

    pub fn zero() -> (r: StreamId)
        ensures
            r.0 == 0,
    {
        StreamId(0)
    }

    /// The identifier `v`, which must leave the reserved bit clear.
    pub fn from(v: u32) -> (r: StreamId)
        requires
            v < 0x8000_0000,
        ensures
            r.0 == v,
    {
        StreamId(v)
    }

    pub fn is_zero(&self) -> (r: bool)
        ensures
            r == (self.0 == 0),
    {
        self.0 == 0
    }

    pub fn value(&self) -> (r: u32)
        ensures
            r == self.0,
    {
        self.0
    }

    /// Splits a 32-bit field into its low 31 bits and its high bit.
    pub fn parse(src: &[u8]) -> (r: (StreamId, bool))
        requires
            src@.len() >= 4,
        ensures
            r == stream_id_field(src@.subrange(0, 4)),
    {
        let v = get_u32(src, 0);
        (StreamId(v & 0x7fff_ffff), v & STREAM_ID_MASK != 0)
    }
}

/// A 32-bit stream identifier field read as its low 31 bits and its high bit.
pub open spec fn stream_id_field(b: Seq<u8>) -> (StreamId, bool) {
    let v = be32_value(b);
    (StreamId(v & 0x7fff_ffff), v & 0x8000_0000 != 0)
}

/// The type of a frame.
#[derive(Clone, Copy, Debug, PartialEq, Eq, Structural, Hash)]
pub enum Kind {
    Data,
    Headers,
    Priority,
    Reset,
    Settings,
    PushPromise,
    Ping,
    GoAway,
    WindowUpdate,
    Continuation,
    Unknown(u8),
}

/// The type byte of a frame of kind `k`.
pub open spec fn kind_code(k: Kind) -> u8 {
    match k {
        Kind::Data => 0,
        Kind::Headers => 1,
        Kind::Priority => 2,
        Kind::Reset => 3,
        Kind::Settings => 4,
        Kind::PushPromise => 5,
        Kind::Ping => 6,
        Kind::GoAway => 7,
        Kind::WindowUpdate => 8,
        Kind::Continuation => 9,
        Kind::Unknown(c) => c,
    }
}

/// The kind that a type byte names.
pub open spec fn kind_of_code(c: u8) -> Kind {
    if c == 0 {
        Kind::Data
    } else if c == 1 {
        Kind::Headers
    } else if c == 2 {
        Kind::Priority
    } else if c == 3 {
        Kind::Reset
    } else if c == 4 {
        Kind::Settings
    } else if c == 5 {
        Kind::PushPromise
    } else if c == 6 {
        Kind::Ping
    } else if c == 7 {
        Kind::GoAway
    } else if c == 8 {
        Kind::WindowUpdate
    } else if c == 9 {
        Kind::Continuation
    } else {
        Kind::Unknown(c)
    }
}

impl Kind {
    pub fn code(&self) -> (r: u8)
        ensures
            r == kind_code(*self),
    {
        match self {
            Kind::Data => 0,
            Kind::Headers => 1,
            Kind::Priority => 2,
            Kind::Reset => 3,
            Kind::Settings => 4,
            Kind::PushPromise => 5,
            Kind::Ping => 6,
            Kind::GoAway => 7,
            Kind::WindowUpdate => 8,
            Kind::Continuation => 9,
            Kind::Unknown(c) => *c,
        }
    }

    pub fn from_code(c: u8) -> (r: Kind)
        ensures
            r == kind_of_code(c),
    {
        match c {
            0 => Kind::Data,
            1 => Kind::Headers,
            2 => Kind::Priority,
            3 => Kind::Reset,
            4 => Kind::Settings,
            5 => Kind::PushPromise,
            6 => Kind::Ping,
            7 => Kind::GoAway,
            8 => Kind::WindowUpdate,
            9 => Kind::Continuation,
            _ => Kind::Unknown(c),
        }
    }
}

/// The fixed header in front of every frame.
#[derive(Clone, Copy, Debug, PartialEq, Eq, Structural, Hash)]
pub struct Head {
    pub kind: Kind,
    pub flag: u8,
    pub stream_id: StreamId,
}

/// The nine header bytes of `h` for a payload of `len` bytes.
pub open spec fn head_bytes(h: Head, len: u32) -> Seq<u8> {
    be24(len) + seq![kind_code(h.kind), h.flag] + be32(h.stream_id.0)
}

/// The header that nine bytes spell; the reserved bit of the stream field is dropped.
pub open spec fn head_of_bytes(b: Seq<u8>) -> Head {
    Head { kind: kind_of_code(b[3]), flag: b[4], stream_id: stream_id_field(b.subrange(5, 9)).0 }
}

/// The payload length that the first three header bytes spell.
pub open spec fn payload_len_of_bytes(b: Seq<u8>) -> int {
    b[0] as int * 0x1_0000 + b[1] as int * 0x100 + b[2] as int
}

impl Head {
    pub fn new(kind: Kind, flag: u8, stream_id: StreamId) -> (r: Head)
        ensures
            r == (Head { kind, flag, stream_id }),
    {
        Head { kind, flag, stream_id }
    }

    pub fn kind(&self) -> (r: Kind)
        ensures
            r == self.kind,
    {
        self.kind
    }

    pub fn flag(&self) -> (r: u8)
        ensures
            r == self.flag,
    {
        self.flag
    }

    pub fn stream_id(&self) -> (r: StreamId)
        ensures
            r == self.stream_id,
    {
        self.stream_id
    }

    /// Reads a header from the first nine bytes of `header`.
    pub fn parse(header: &[u8]) -> (r: Head)
        requires
            header@.len() >= HEADER_LEN,
        ensures
            r == head_of_bytes(header@.subrange(0, 9)),
    {
        let kind = Kind::from_code(header[3]);
        let flag = header[4];
        let v = get_u32(header, 5);
        proof {
            assert(header@.subrange(0, 9).subrange(5, 9) =~= header@.subrange(5, 9));
        }
        Head { kind, flag, stream_id: StreamId(v & 0x7fff_ffff) }
    }

    /// Appends the header for a payload of `payload_len` bytes.
    pub fn encode(&self, payload_len: usize, dst: &mut Vec<u8>)
        requires
            payload_len < FRAME_LEN_LIMIT,
        ensures
            final(dst)@ == old(dst)@ + head_bytes(*self, payload_len as u32),
    {
        put_u24(dst, payload_len as u32);
        dst.push(self.kind.code());
        dst.push(self.flag);
        put_u32(dst, self.stream_id.0);
        assert(dst@ =~= old(dst)@ + head_bytes(*self, payload_len as u32));
    }
}

/// A header read back from its bytes is the header written, where the kind is one
/// that its type byte names and the stream identifier fits in 31 bits.
pub proof fn lemma_head_round_trip(h: Head, len: u32)
    requires
        h.stream_id.valid(),
        kind_of_code(kind_code(h.kind)) == h.kind,
        len < 0x100_0000,
    ensures
        head_bytes(h, len).len() == 9,
        head_of_bytes(head_bytes(h, len)) == h,
        payload_len_of_bytes(head_bytes(h, len)) == len,
{
    let b = head_bytes(h, len);
    let v = h.stream_id.0;
    lemma_be32_round_trip(v);
    assert(b.subrange(5, 9) =~= be32(v));
    assert(v & 0x7fff_ffff == v) by (bit_vector)
        requires
            v < 0x8000_0000u32,
    ;
    let x0 = (len >> 16u32) & 0xff;
    let x1 = (len >> 8u32) & 0xff;
    let x2 = len & 0xff;
    assert(x0 < 256 && x1 < 256 && x2 < 256) by (bit_vector)
        requires
            x0 == (len >> 16u32) & 0xff,
            x1 == (len >> 8u32) & 0xff,
            x2 == len & 0xff,
    ;
    assert(x0 * 0x1_0000 + x1 * 0x100 + x2 == len) by (bit_vector)
        requires
            x0 == (len >> 16u32) & 0xff,
            x1 == (len >> 8u32) & 0xff,
            x2 == len & 0xff,
            len < 0x100_0000u32,
    ;
    assert(b[0] == x0 as u8 && b[1] == x1 as u8 && b[2] == x2 as u8);
}

/// Why a frame failed to load.
#[derive(Clone, Copy, Debug, PartialEq, Eq, Structural)]
pub enum Error {
    /// A SETTINGS frame on a stream other than 0.
    InvalidStreamId,
    /// A payload of the wrong length: an ACK that carries settings, or a
    /// dependency that is not five bytes long.
    InvalidPayloadLength,
    /// A SETTINGS payload whose length is not a multiple of six.
    InvalidPayloadAckSettings,
    /// A known setting whose value lies outside its domain.
    InvalidSettingValue,
    /// A PRIORITY frame whose stream depends on itself.
    InvalidDependencyId,
}

} // verus!
