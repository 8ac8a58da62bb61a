//! Physical record format of the write-ahead log.
//!
//! The log is a row of 32 KiB blocks. A record that does not fit the rest of
//! its block is cut into First / Middle / Last fragments; a block tail too
//! short for a header is zero-filled. A standard header is CRC32c (4 bytes,
//! little endian), payload length (2 bytes) and type (1 byte); a recyclable
//! one adds a 4-byte log number.

use vstd::prelude::*;

verus! {

/// Block size in bytes.
pub const BLOCK_SIZE: usize = 32_768;

/// Size of a standard record header in bytes.
pub const HEADER_SIZE: usize = 7;

/// Size of a recyclable record header in bytes.
pub const RECYCLABLE_HEADER_SIZE: usize = 11;

/// Bytes that must remain in a block for one more record to start there.
pub const MIN_REMAINING: usize = HEADER_SIZE;

/// The type byte of a physical record.
#[derive(Clone, Copy, Debug, PartialEq, Eq, Structural)]
pub enum RecordType {
    /// The whole record in one piece.
    Full,
    /// First fragment of a record.
    First,
    /// A fragment in the middle.
    Middle,
    /// Last fragment of a record.
    Last,
    /// The whole record, recyclable header.
    RecyclableFull,
    /// First fragment, recyclable header.
    RecyclableFirst,
    /// Middle fragment, recyclable header.
    RecyclableMiddle,
    /// Last fragment, recyclable header.
    RecyclableLast,
}

impl RecordType {
    /// The byte that stands for this type in a header.
    pub open spec fn byte(self) -> u8 {
        match self {
            RecordType::Full => 1,
            RecordType::First => 2,
            RecordType::Middle => 3,
            RecordType::Last => 4,
            RecordType::RecyclableFull => 5,
            RecordType::RecyclableFirst => 6,
            RecordType::RecyclableMiddle => 7,
            RecordType::RecyclableLast => 8,
        }
    }

    /// The byte that stands for this type in a header.
    pub fn to_byte(self) -> (r: u8)
        ensures
            r == self.byte(),
    {
        match self {
            RecordType::Full => 1,
            RecordType::First => 2,
            RecordType::Middle => 3,
            RecordType::Last => 4,
            RecordType::RecyclableFull => 5,
            RecordType::RecyclableFirst => 6,
            RecordType::RecyclableMiddle => 7,
            RecordType::RecyclableLast => 8,
        }
    }

    /// The type that `b` stands for; bytes 1 to 8 have one, no other byte has.
    pub fn from_byte(b: u8) -> (r: Option<Self>)
        ensures
            r is Some <==> 1 <= b <= 8,
            r matches Some(t) ==> t.byte() == b,
    {
        match b {
            1 => Some(RecordType::Full),
            2 => Some(RecordType::First),
            3 => Some(RecordType::Middle),
            4 => Some(RecordType::Last),
            5 => Some(RecordType::RecyclableFull),
            6 => Some(RecordType::RecyclableFirst),
            7 => Some(RecordType::RecyclableMiddle),
            8 => Some(RecordType::RecyclableLast),
            _ => None,
        }
    }

    /// Whether the record carries a log number: the types from 5 on do.
    pub fn is_recyclable(self) -> (r: bool)
        ensures
            r == (self.byte() >= 5),
    {
        self.to_byte() >= 5
    }

    /// The size of this record's header in bytes.
    pub fn header_size(self) -> (r: usize)
        ensures
            r == if self.byte() >= 5 {
                RECYCLABLE_HEADER_SIZE
            } else {
                HEADER_SIZE
            },
    {
        if self.is_recyclable() {
            RECYCLABLE_HEADER_SIZE
        } else {
            HEADER_SIZE
        }
    }
}

/// Different record types have different bytes.
pub proof fn law_record_type_bytes_are_distinct(a: RecordType, b: RecordType)
    requires
        a.byte() == b.byte(),
    ensures
        a == b,
{
}

/// The four kinds of fragment are numbered from 1 in the order in which they
/// can stand in a record, the recyclable ones four above the others, and only
/// the recyclable ones have a byte from 5 on.
pub proof fn law_record_type_bytes(t: RecordType)
    ensures
        t is Full || t is RecyclableFull ==> (t.byte() - 1) % 4 == 0,
        t is First || t is RecyclableFirst ==> (t.byte() - 1) % 4 == 1,
        t is Middle || t is RecyclableMiddle ==> (t.byte() - 1) % 4 == 2,
        t is Last || t is RecyclableLast ==> (t.byte() - 1) % 4 == 3,
        1 <= t.byte() <= 8,
        t.byte() >= 5 <==> t is RecyclableFull || t is RecyclableFirst || t is RecyclableMiddle
            || t is RecyclableLast,
{
}

} // verus!
