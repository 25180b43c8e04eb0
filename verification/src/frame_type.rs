//! The ten frame types and their typed flag sets, and the mapping between a
//! frame type and the raw (type byte, flags byte) pair of a frame header.

use crate::flags::{BitFlags, DataFlags, Flag, HeadersFlags, SettingsFlags};
use vstd::prelude::*;

verus! {

/// The type byte of a frame header, for the ten frame types of HTTP/2.
#[derive(Copy, Clone, Debug, PartialEq, Eq)]
pub enum RawFrameType {
    Data,
    Headers,
    Priority,
    RstStream,
    Settings,
    PushPromise,
    Ping,
    GoAway,
    WindowUpdate,
    Continuation,
}

/// A type byte that names none of the ten frame types.
#[derive(Copy, Clone, Debug, PartialEq, Eq)]
pub struct UnknownFrameType(pub u8);

impl RawFrameType {
    /// The type code on the wire.
    pub open spec fn repr_spec(self) -> u8 {
        match self {
            RawFrameType::Data => 0,
            RawFrameType::Headers => 1,
            RawFrameType::Priority => 2,
            RawFrameType::RstStream => 3,
            RawFrameType::Settings => 4,
            RawFrameType::PushPromise => 5,
            RawFrameType::Ping => 6,
            RawFrameType::GoAway => 7,
            RawFrameType::WindowUpdate => 8,
            RawFrameType::Continuation => 9,
        }
    }

    /// The frame type with the given code, if there is one.
    pub open spec fn from_repr_spec(code: u8) -> Option<RawFrameType> {
        if code == 0 {
            Some(RawFrameType::Data)
        } else if code == 1 {
            Some(RawFrameType::Headers)
        } else if code == 2 {
            Some(RawFrameType::Priority)
        } else if code == 3 {
            Some(RawFrameType::RstStream)
        } else if code == 4 {
            Some(RawFrameType::Settings)
        } else if code == 5 {
            Some(RawFrameType::PushPromise)
        } else if code == 6 {
            Some(RawFrameType::Ping)
        } else if code == 7 {
            Some(RawFrameType::GoAway)
        } else if code == 8 {
            Some(RawFrameType::WindowUpdate)
        } else if code == 9 {
            Some(RawFrameType::Continuation)
        } else {
            None
        }
    }

    /// The flag bits that frames of this type carry; all others are dropped.
    pub open spec fn flag_mask(self) -> u8 {
        match self {
            RawFrameType::Data => DataFlags::all_spec(),
            RawFrameType::Headers => HeadersFlags::all_spec(),
            RawFrameType::Settings => SettingsFlags::all_spec(),
            _ => 0,
        }
    }

    /// The type code on the wire.
    pub fn repr(&self) -> (code: u8)
        ensures
            code == self.repr_spec(),
            code < 10,
    {
        match self {
            RawFrameType::Data => 0,
            RawFrameType::Headers => 1,
            RawFrameType::Priority => 2,
            RawFrameType::RstStream => 3,
            RawFrameType::Settings => 4,
            RawFrameType::PushPromise => 5,
            RawFrameType::Ping => 6,
            RawFrameType::GoAway => 7,
            RawFrameType::WindowUpdate => 8,
            RawFrameType::Continuation => 9,
        }
    }

    /// The frame type with the given code; `None` for a code of 10 or more.
    pub fn from_repr(code: u8) -> (r: Option<RawFrameType>)
        ensures
            r == Self::from_repr_spec(code),
            r is Some <==> code < 10,
            r matches Some(t) ==> t.repr_spec() == code,
    {
        match code {
            0 => Some(RawFrameType::Data),
            1 => Some(RawFrameType::Headers),
            2 => Some(RawFrameType::Priority),
            3 => Some(RawFrameType::RstStream),
            4 => Some(RawFrameType::Settings),
            5 => Some(RawFrameType::PushPromise),
            6 => Some(RawFrameType::Ping),
            7 => Some(RawFrameType::GoAway),
            8 => Some(RawFrameType::WindowUpdate),
            9 => Some(RawFrameType::Continuation),
            _ => None,
        }
    }

    /// A frame type is found again from its code.
    pub proof fn lemma_repr_round_trip(self)
        ensures
            Self::from_repr_spec(self.repr_spec()) == Some(self),
            self.repr_spec() < 10,
    {
    }

    /// A code names a frame type exactly when it is below 10, and that frame
    /// type has the code.
    pub proof fn lemma_from_repr(code: u8)
        ensures
            Self::from_repr_spec(code) is Some <==> code < 10,
            Self::from_repr_spec(code) matches Some(t) ==> t.repr_spec() == code,
    {
    }
}

/// A frame type together with the flags that frames of this type carry.
///
/// Only DATA, HEADERS and SETTINGS carry a flag set. For the other types the
/// flags byte of a header is dropped when decoding and written as 0.
#[derive(Copy, Clone, Debug, PartialEq, Eq)]
pub enum FrameType {
    Data(BitFlags<DataFlags>),
    Headers(BitFlags<HeadersFlags>),
    Priority,
    RstStream,
    Settings(BitFlags<SettingsFlags>),
    PushPromise,
    Ping,
    GoAway,
    WindowUpdate,
    Continuation,
}

impl FrameType {
    /// The frame type without its flags.
    pub open spec fn raw_spec(self) -> RawFrameType {
        match self {
            FrameType::Data(_) => RawFrameType::Data,
            FrameType::Headers(_) => RawFrameType::Headers,
            FrameType::Priority => RawFrameType::Priority,
            FrameType::RstStream => RawFrameType::RstStream,
            FrameType::Settings(_) => RawFrameType::Settings,
            FrameType::PushPromise => RawFrameType::PushPromise,
            FrameType::Ping => RawFrameType::Ping,
            FrameType::GoAway => RawFrameType::GoAway,
            FrameType::WindowUpdate => RawFrameType::WindowUpdate,
            FrameType::Continuation => RawFrameType::Continuation,
        }
    }

    /// The flags byte: the bits of the flag set, 0 where there is none.
    pub open spec fn flag_bits(self) -> u8 {
        match self {
            FrameType::Data(f) => f@,
            FrameType::Headers(f) => f@,
            FrameType::Settings(f) => f@,
            _ => 0,
        }
    }

    /// The flag set holds only flags of this frame type.
    pub open spec fn wf(self) -> bool {
        match self {
            FrameType::Data(f) => f.wf(),
            FrameType::Headers(f) => f.wf(),
            FrameType::Settings(f) => f.wf(),
            _ => true,
        }
    }

    /// The frame type `raw` with the known flags of the byte `flags`.
    pub open spec fn from_raw_spec(raw: RawFrameType, flags: u8) -> FrameType {
        match raw {
            RawFrameType::Data => FrameType::Data(BitFlags::truncated(flags)),
            RawFrameType::Headers => FrameType::Headers(BitFlags::truncated(flags)),
            RawFrameType::Priority => FrameType::Priority,
            RawFrameType::RstStream => FrameType::RstStream,
            RawFrameType::Settings => FrameType::Settings(BitFlags::truncated(flags)),
            RawFrameType::PushPromise => FrameType::PushPromise,
            RawFrameType::Ping => FrameType::Ping,
            RawFrameType::GoAway => FrameType::GoAway,
            RawFrameType::WindowUpdate => FrameType::WindowUpdate,
            RawFrameType::Continuation => FrameType::Continuation,
        }
    }

    /// The (type byte, flags byte) pair of a header.
    pub open spec fn encode_spec(self) -> (u8, u8) {
        (self.raw_spec().repr_spec(), self.flag_bits())
    }

    /// The frame type that a header's type byte and flags byte name.
    pub open spec fn decode_spec(raw_type: u8, raw_flags: u8) -> Result<
        FrameType,
        UnknownFrameType,
    > {
        match RawFrameType::from_repr_spec(raw_type) {
            Some(raw) => Ok(Self::from_raw_spec(raw, raw_flags)),
            None => Err(UnknownFrameType(raw_type)),
        }
    }

    /// The frame type without its flags.
    pub fn raw(&self) -> (raw: RawFrameType)
        ensures
            raw == self.raw_spec(),
    {
        match self {
            FrameType::Data(_) => RawFrameType::Data,
            FrameType::Headers(_) => RawFrameType::Headers,
            FrameType::Priority => RawFrameType::Priority,
            FrameType::RstStream => RawFrameType::RstStream,
            FrameType::Settings(_) => RawFrameType::Settings,
            FrameType::PushPromise => RawFrameType::PushPromise,
            FrameType::Ping => RawFrameType::Ping,
            FrameType::GoAway => RawFrameType::GoAway,
            FrameType::WindowUpdate => RawFrameType::WindowUpdate,
            FrameType::Continuation => RawFrameType::Continuation,
        }
    }

    /// The frame type `raw` with the known flags of the byte `flags`. Bits
    /// that name no flag of that type are dropped.
    pub fn from_raw(raw: RawFrameType, flags: u8) -> (t: FrameType)
        ensures
            t == Self::from_raw_spec(raw, flags),
            t.wf(),
            t.raw_spec() == raw,
            t.flag_bits() == flags & raw.flag_mask(),
    {
        proof {
            assert(flags & 0u8 == 0u8) by (bit_vector);
        }
        match raw {
            RawFrameType::Data => FrameType::Data(BitFlags::from_bits_truncate(flags)),
            RawFrameType::Headers => FrameType::Headers(BitFlags::from_bits_truncate(flags)),
            RawFrameType::Priority => FrameType::Priority,
            RawFrameType::RstStream => FrameType::RstStream,
            RawFrameType::Settings => FrameType::Settings(BitFlags::from_bits_truncate(flags)),
            RawFrameType::PushPromise => FrameType::PushPromise,
            RawFrameType::Ping => FrameType::Ping,
            RawFrameType::GoAway => FrameType::GoAway,
            RawFrameType::WindowUpdate => FrameType::WindowUpdate,
            RawFrameType::Continuation => FrameType::Continuation,
        }
    }

    /// The (type byte, flags byte) pair of a header. It depends on the
    /// variant and its flag set alone; a variant without a flag set gives the
    /// flags byte 0.
    pub fn encode(&self) -> (r: (u8, u8))
        ensures
            r == self.encode_spec(),
            r.0 < 10,
            self.wf(),
            r.1 & self.raw_spec().flag_mask() == r.1,
    {
        proof {
            assert(0u8 & 0u8 == 0u8) by (bit_vector);
        }
        match self {
            FrameType::Data(f) => (0, f.bits()),
            FrameType::Headers(f) => (1, f.bits()),
            FrameType::Priority => (2, 0),
            FrameType::RstStream => (3, 0),
            FrameType::Settings(f) => (4, f.bits()),
            FrameType::PushPromise => (5, 0),
            FrameType::Ping => (6, 0),
            FrameType::GoAway => (7, 0),
            FrameType::WindowUpdate => (8, 0),
            FrameType::Continuation => (9, 0),
        }
    }

    /// The frame type that a header's type byte and flags byte name. A type
    /// byte of 10 or more is refused; flag bits that the type does not know
    /// are dropped.
    pub fn decode(raw_type: u8, raw_flags: u8) -> (r: Result<FrameType, UnknownFrameType>)
        ensures
            r == Self::decode_spec(raw_type, raw_flags),
            r is Ok <==> raw_type < 10,
            r matches Err(e) ==> e == UnknownFrameType(raw_type),
            r matches Ok(t) ==> t.wf() && t.encode_spec() == (
                raw_type,
                raw_flags & t.raw_spec().flag_mask(),
            ),
    {
        match RawFrameType::from_repr(raw_type) {
            Some(raw) => Ok(Self::from_raw(raw, raw_flags)),
            None => Err(UnknownFrameType(raw_type)),
        }
    }

    /// Two frame types with the same variant and the same flag bits are the
    /// same, so they encode to the same pair.
    pub proof fn lemma_encode_by_variant_and_flags(self, other: FrameType)
        requires
            self.raw_spec() == other.raw_spec(),
            self.flag_bits() == other.flag_bits(),
        ensures
            self == other,
            self.encode_spec() == other.encode_spec(),
    {
        match (self, other) {
            (FrameType::Data(a), FrameType::Data(b)) => a.lemma_same_bits(b),
            (FrameType::Headers(a), FrameType::Headers(b)) => a.lemma_same_bits(b),
            (FrameType::Settings(a), FrameType::Settings(b)) => a.lemma_same_bits(b),
            _ => {},
        }
    }

    /// Frame types with the same encoding are the same.
    pub proof fn lemma_encode_injective(self, other: FrameType)
        requires
            self.encode_spec() == other.encode_spec(),
        ensures
            self == other,
    {
        self.raw_spec().lemma_repr_round_trip();
        other.raw_spec().lemma_repr_round_trip();
        self.lemma_encode_by_variant_and_flags(other);
    }

    /// Decoding the encoding of a frame type gives it back.
    pub proof fn lemma_encode_decode(self)
        requires
            self.wf(),
        ensures
            Self::decode_spec(self.encode_spec().0, self.encode_spec().1) == Ok::<
                FrameType,
                UnknownFrameType,
            >(self),
    {
        self.raw_spec().lemma_repr_round_trip();
        let t = Self::from_raw_spec(self.raw_spec(), self.flag_bits());
        match self {
            FrameType::Data(f) => BitFlags::<DataFlags>::lemma_truncated(f@),
            FrameType::Headers(f) => BitFlags::<HeadersFlags>::lemma_truncated(f@),
            FrameType::Settings(f) => BitFlags::<SettingsFlags>::lemma_truncated(f@),
            _ => {},
        }
        self.lemma_encode_by_variant_and_flags(t);
    }

    /// Encoding what was decoded gives the type byte back, and of the flags
    /// byte the bits that the frame type knows: decoding is lossy.
    pub proof fn lemma_decode_encode(raw_type: u8, raw_flags: u8)
        ensures
            Self::decode_spec(raw_type, raw_flags) is Ok <==> raw_type < 10,
            Self::decode_spec(raw_type, raw_flags) matches Ok(t) ==> t.wf() && t.encode_spec() == (
                raw_type,
                raw_flags & t.raw_spec().flag_mask(),
            ),
            Self::decode_spec(raw_type, raw_flags) matches Err(e) ==> e.0 == raw_type,
    {
        RawFrameType::lemma_from_repr(raw_type);
        BitFlags::<DataFlags>::lemma_truncated(raw_flags);
        BitFlags::<HeadersFlags>::lemma_truncated(raw_flags);
        BitFlags::<SettingsFlags>::lemma_truncated(raw_flags);
        assert(raw_flags & 0u8 == 0u8) by (bit_vector);
    }

    /// A SETTINGS frame decoded from any flags byte holds at most `Ack`, and
    /// encodes with a flags byte of 0 or 1.
    pub proof fn lemma_settings_flags_truncated(raw_flags: u8)
        ensures
            Self::decode_spec(4, raw_flags) matches Ok(t) && t.raw_spec() == RawFrameType::Settings
                && t.encode_spec() == (4u8, raw_flags & 0x01),
            raw_flags & 0x01 == 0 || raw_flags & 0x01 == 1,
            raw_flags == 0xFF ==> raw_flags & 0x01 == 0x01,
    {
        Self::lemma_decode_encode(4, raw_flags);
        assert(raw_flags & 0x01 == 0 || raw_flags & 0x01 == 1) by (bit_vector);
        assert(raw_flags == 0xFF ==> raw_flags & 0x01 == 0x01) by (bit_vector);
    }
}

} // verus!
